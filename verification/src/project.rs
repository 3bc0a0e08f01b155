//! Projects, and the documents and code artifacts that belong to them.

use vstd::prelude::*;
use crate::columns::{int_of, opt_int_of, opt_text_of, string_list_of, text_of, view_opt};
use crate::params::{CreateCodeArtifactParams, CreateDocumentParams, CreateProjectParams, UpdateCodeArtifactParams, UpdateDocumentParams, UpdateProjectParams};
use crate::records::{
    code_artifact_from_row, code_artifact_list_of, document_list_of, project_list_of, code_artifact_row_valid,
    document_row_valid, project_row_valid, decode_all_code_artifacts, decode_all_documents, decode_all_projects, decode_code_artifact,
    decode_document, decode_project, document_from_row, project_from_row, code_artifact_read, document_read,
    project_read, CodeArtifact, Document, Project, ProjectWithCount,
};
use crate::memory::{now_value, opt_int_value, opt_string_value};
use crate::activity::activity_write;
use crate::sql::{json_encode_strings, json_string_list_text, sql_datetime_text, DbError, RecordKind, SqlValue, Timestamp};
use crate::statements::{
    add_if, clock_text, col_if, distinct_names, more_names, name_list, select_from, insert_sql, insert_statement, inserts_value, lemma_insert_binds, filter_sql, filter_statement, given_list, given_text, list_if_ok, run_update, text_if,
    update_write, val_if, views,
};
use crate::store::{inserted_rowid, query_failed, answered, bound_all, first_answer, default_user, opt_int_bound, opt_string_bound, Bound, Database, Write};
use crate::text::byte_len;
use crate::dashboard::{count_answered, count_with};

verus! {

/// The columns an update of a project sets besides `updated_at`, in order.
pub open spec fn project_update_cols(p: UpdateProjectParams) -> Seq<Seq<char>> {
    col_if(p.name is Some, "name"@) + col_if(p.description is Some, "description"@)
        + col_if(p.project_type is Some, "project_type"@) + col_if(p.status is Some, "status"@)
        + col_if(p.repo_name is Some, "repo_name"@) + col_if(p.notes is Some, "notes"@)
}

/// The values an update of a project binds for its columns (see
/// `project_update_cols`): each given field's new value, in order.
pub open spec fn project_update_vals(p: UpdateProjectParams) -> Seq<Bound> {
    text_if(p.name) + text_if(p.description) + text_if(p.project_type) + text_if(p.status) + text_if(p.repo_name) + text_if(p.notes)
}

/// `vals` are the values an update of a project binds (see `project_update_vals`).
pub open spec fn project_update_bound(p: UpdateProjectParams, vals: Seq<Bound>) -> bool {
    vals == project_update_vals(p)
}

pub fn project_update_columns(p: &UpdateProjectParams) -> (r: (Vec<&'static str>, Vec<SqlValue>))
    ensures
        r.0.len() == r.1.len(),
        views(r.0@) == project_update_cols(*p),
        r.0.len() <= 6,
        project_update_bound(*p, bound_all(r.1@)),
{
    let mut cols: Vec<&'static str> = Vec::new();
    let mut vals: Vec<SqlValue> = Vec::new();
    assert(views(cols@) =~= Seq::<Seq<char>>::empty());
    assert(bound_all(vals@) =~= Seq::<Bound>::empty());
    let name_v = given_text(&p.name);
    add_if(&mut cols, &mut vals, "name", name_v);
    assert(bound_all(vals@) =~= text_if(p.name));
    let ghost mut acc = text_if(p.name);
    let description_v = given_text(&p.description);
    add_if(&mut cols, &mut vals, "description", description_v);
    proof { acc = acc + text_if(p.description); }
    let project_type_v = given_text(&p.project_type);
    add_if(&mut cols, &mut vals, "project_type", project_type_v);
    proof { acc = acc + text_if(p.project_type); }
    let status_v = given_text(&p.status);
    add_if(&mut cols, &mut vals, "status", status_v);
    proof { acc = acc + text_if(p.status); }
    let repo_name_v = given_text(&p.repo_name);
    add_if(&mut cols, &mut vals, "repo_name", repo_name_v);
    proof { acc = acc + text_if(p.repo_name); }
    let notes_v = given_text(&p.notes);
    add_if(&mut cols, &mut vals, "notes", notes_v);
    proof { acc = acc + text_if(p.notes); }
    assert(views(cols@) =~= project_update_cols(*p));
    assert(bound_all(vals@) == acc);
    assert(project_update_vals(*p) == acc);
    (cols, vals)
}

/// The columns an update of a document sets besides `updated_at`, in
/// order; new content also sets the size.
pub open spec fn document_update_cols(p: UpdateDocumentParams) -> Seq<Seq<char>> {
    col_if(p.title is Some, "title"@) + col_if(p.description is Some, "description"@)
        + col_if(p.content is Some, "content"@) + col_if(p.content is Some, "size_bytes"@)
        + col_if(p.document_type is Some, "document_type"@) + col_if(p.filename is Some, "filename"@)
        + col_if(p.tags is Some, "tags"@)
}

/// The size in bytes stored for a document's content.
pub fn content_size(content: &String) -> (r: i64)
    ensures
        r == byte_len(content@) as i64,
{
    content.as_str().len() as i64
}

/// The size bound for new content of a document, when it is given.
pub open spec fn size_if(o: Option<String>) -> Seq<Bound> {
    match o {
        Some(c) => seq![Bound::Integer(byte_len(c@) as i64)],
        None => seq![],
    }
}

/// The values an update of a document binds for its columns (see
/// `document_update_cols`), in order, given those bound for its lists.
pub open spec fn document_update_vals(p: UpdateDocumentParams, tags_b: Seq<Bound>) -> Seq<Bound> {
    text_if(p.title) + text_if(p.description) + text_if(p.content) + size_if(p.content) + text_if(p.document_type) + text_if(p.filename) + tags_b
}

/// `vals` are the values an update of a document binds: each given field's
/// new value, in the order of `document_update_cols` (see `list_if_ok`).
pub open spec fn document_update_bound(p: UpdateDocumentParams, vals: Seq<Bound>) -> bool {
    exists|tags_b: Seq<Bound>|
        list_if_ok(p.tags, tags_b)
        && vals == #[trigger] document_update_vals(p, tags_b)
}

/// A document's size follows its content: a new document binds, with its
/// content, the content's length in bytes as its size; an update that sets
/// the content sets `size_bytes`, in the column right after it, to the new
/// content's length in bytes, and an update that does not set the content
/// sets no size.
pub proof fn lemma_document_size_follows_content(
    p: CreateDocumentParams,
    t: Timestamp,
    q: UpdateDocumentParams,
    vals: Seq<Bound>,
)
    requires
        document_update_bound(q, vals),
    ensures
        document_insert_write(p, t).1[4] == Bound::Text(p.content@),
        document_insert_write(p, t).1[7] == Bound::Integer(byte_len(p.content@) as i64),
        vals.len() == document_update_cols(q).len(),
        q.content matches Some(c) ==> exists|i: int| 0 <= i && i + 1 < vals.len()
            && document_update_cols(q)[i] == "content"@ && #[trigger] document_update_cols(q)[i + 1] == "size_bytes"@
            && vals[i] == Bound::Text(c@) && vals[i + 1] == Bound::Integer(byte_len(c@) as i64),
        q.content is None ==> document_update_cols(q) == col_if(q.title is Some, "title"@)
            + col_if(q.description is Some, "description"@)
            + col_if(q.document_type is Some, "document_type"@) + col_if(q.filename is Some, "filename"@)
            + col_if(q.tags is Some, "tags"@),
{
    let tags_b = choose|tags_b: Seq<Bound>| list_if_ok(q.tags, tags_b) && vals == document_update_vals(q, tags_b);
    let cols = document_update_cols(q);
    let i = (if q.title is Some { 1int } else { 0int }) + (if q.description is Some { 1int } else { 0int });
    assert(tags_b.len() == (if q.tags is Some { 1int } else { 0int }));
    assert(vals.len() == cols.len());
    if q.content is Some {
        let c = q.content->Some_0;
        assert(cols[i] == "content"@ && cols[i + 1] == "size_bytes"@);
        assert(vals[i] == Bound::Text(c@) && vals[i + 1] == Bound::Integer(byte_len(c@) as i64));
    } else {
        assert(cols =~= col_if(q.title is Some, "title"@) + col_if(q.description is Some, "description"@)
            + col_if(q.document_type is Some, "document_type"@) + col_if(q.filename is Some, "filename"@)
            + col_if(q.tags is Some, "tags"@));
    }
}

pub fn document_update_columns(p: &UpdateDocumentParams) -> (r: (Vec<&'static str>, Vec<SqlValue>))
    ensures
        r.0.len() == r.1.len(),
        views(r.0@) == document_update_cols(*p),
        r.0.len() <= 7,
        document_update_bound(*p, bound_all(r.1@)),
{
    let mut cols: Vec<&'static str> = Vec::new();
    let mut vals: Vec<SqlValue> = Vec::new();
    assert(views(cols@) =~= Seq::<Seq<char>>::empty());
    assert(bound_all(vals@) =~= Seq::<Bound>::empty());
    let title_v = given_text(&p.title);
    add_if(&mut cols, &mut vals, "title", title_v);
    assert(bound_all(vals@) =~= text_if(p.title));
    let ghost mut acc = text_if(p.title);
    let description_v = given_text(&p.description);
    add_if(&mut cols, &mut vals, "description", description_v);
    proof { acc = acc + text_if(p.description); }
    let content_v = given_text(&p.content);
    add_if(&mut cols, &mut vals, "content", content_v);
    proof { acc = acc + text_if(p.content); }
    let size_bytes_v = match &p.content { Some(c) => Some(SqlValue::Integer(content_size(c))), None => None };
    assert(val_if(size_bytes_v) == size_if(p.content));
    add_if(&mut cols, &mut vals, "size_bytes", size_bytes_v);
    proof { acc = acc + size_if(p.content); }
    let document_type_v = given_text(&p.document_type);
    add_if(&mut cols, &mut vals, "document_type", document_type_v);
    proof { acc = acc + text_if(p.document_type); }
    let filename_v = given_text(&p.filename);
    add_if(&mut cols, &mut vals, "filename", filename_v);
    proof { acc = acc + text_if(p.filename); }
    let tags_v = given_list(&p.tags);
    let ghost tags_b = val_if(tags_v);
    add_if(&mut cols, &mut vals, "tags", tags_v);
    proof { acc = acc + tags_b; }
    assert(views(cols@) =~= document_update_cols(*p));
    assert(bound_all(vals@) == acc);
    assert(document_update_vals(*p, tags_b) == acc);
    (cols, vals)
}

/// The columns an update of a code artifact sets besides `updated_at`.
pub open spec fn code_artifact_update_cols(p: UpdateCodeArtifactParams) -> Seq<Seq<char>> {
    col_if(p.title is Some, "title"@) + col_if(p.description is Some, "description"@)
        + col_if(p.code is Some, "code"@) + col_if(p.language is Some, "language"@)
        + col_if(p.tags is Some, "tags"@)
}

/// The values an update of a code artifact binds for its columns (see
/// `code_artifact_update_cols`), in order, given those bound for its lists.
pub open spec fn code_artifact_update_vals(p: UpdateCodeArtifactParams, tags_b: Seq<Bound>) -> Seq<Bound> {
    text_if(p.title) + text_if(p.description) + text_if(p.code) + text_if(p.language) + tags_b
}

/// `vals` are the values an update of a code artifact binds: each given field's
/// new value, in the order of `code_artifact_update_cols` (see `list_if_ok`).
pub open spec fn code_artifact_update_bound(p: UpdateCodeArtifactParams, vals: Seq<Bound>) -> bool {
    exists|tags_b: Seq<Bound>|
        list_if_ok(p.tags, tags_b)
        && vals == #[trigger] code_artifact_update_vals(p, tags_b)
}

pub fn code_artifact_update_columns(p: &UpdateCodeArtifactParams) -> (r: (Vec<&'static str>, Vec<SqlValue>))
    ensures
        r.0.len() == r.1.len(),
        views(r.0@) == code_artifact_update_cols(*p),
        r.0.len() <= 5,
        code_artifact_update_bound(*p, bound_all(r.1@)),
{
    let mut cols: Vec<&'static str> = Vec::new();
    let mut vals: Vec<SqlValue> = Vec::new();
    assert(views(cols@) =~= Seq::<Seq<char>>::empty());
    assert(bound_all(vals@) =~= Seq::<Bound>::empty());
    let title_v = given_text(&p.title);
    add_if(&mut cols, &mut vals, "title", title_v);
    assert(bound_all(vals@) =~= text_if(p.title));
    let ghost mut acc = text_if(p.title);
    let description_v = given_text(&p.description);
    add_if(&mut cols, &mut vals, "description", description_v);
    proof { acc = acc + text_if(p.description); }
    let code_v = given_text(&p.code);
    add_if(&mut cols, &mut vals, "code", code_v);
    proof { acc = acc + text_if(p.code); }
    let language_v = given_text(&p.language);
    add_if(&mut cols, &mut vals, "language", language_v);
    proof { acc = acc + text_if(p.language); }
    let tags_v = given_list(&p.tags);
    let ghost tags_b = val_if(tags_v);
    add_if(&mut cols, &mut vals, "tags", tags_v);
    proof { acc = acc + tags_b; }
    assert(views(cols@) =~= code_artifact_update_cols(*p));
    assert(bound_all(vals@) == acc);
    assert(code_artifact_update_vals(*p, tags_b) == acc);
    (cols, vals)
}

/// The columns a listing filters on: those given, in order.
pub fn filter_columns(first: &'static str, first_given: bool, second: &'static str, second_given: bool) -> (r: Vec<&'static str>)
    ensures
        views(r@) == col_if(first_given, first@) + col_if(second_given, second@),
        r.len() <= 2,
{
    let mut cols: Vec<&'static str> = Vec::new();
    if first_given {
        cols.push(first);
    }
    if second_given {
        cols.push(second);
    }
    assert(views(cols@) =~= col_if(first_given, first@) + col_if(second_given, second@));
    cols
}


/// The columns of a new project's row, in the order their values are bound.
pub open spec fn project_insert_columns() -> Seq<Seq<char>> {
    seq![
        "user_id"@, "name"@, "description"@, "project_type"@, "status"@, "repo_name"@, "notes"@,
        "created_at"@, "updated_at"@,
    ]
}

pub const PROJECT_DELETE: &'static str = "DELETE FROM projects WHERE id = ?1";

/// The columns of a new document's row, in the order their values are bound.
pub open spec fn document_insert_columns() -> Seq<Seq<char>> {
    seq![
        "user_id"@, "project_id"@, "title"@, "description"@, "content"@, "document_type"@,
        "filename"@, "size_bytes"@, "tags"@, "created_at"@, "updated_at"@,
    ]
}

pub const DOCUMENT_DELETE: &'static str = "DELETE FROM documents WHERE id = ?1";

/// The columns of a new code artifact's row, in the order their values are
/// bound.
pub open spec fn code_artifact_insert_columns() -> Seq<Seq<char>> {
    seq![
        "user_id"@, "project_id"@, "title"@, "description"@, "code"@, "language"@, "tags"@,
        "created_at"@, "updated_at"@,
    ]
}

pub const CODE_ARTIFACT_DELETE: &'static str = "DELETE FROM code_artifacts WHERE id = ?1";

/// The row of a new project, created at the time `t`; it starts `active`.
pub open spec fn project_insert_write(p: CreateProjectParams, t: Timestamp) -> Write {
    (insert_sql("INSERT"@, "projects"@, project_insert_columns()), seq![
        Bound::Text(default_user()),
        Bound::Text(p.name@),
        Bound::Text(p.description@),
        opt_string_bound(p.project_type),
        Bound::Text("active"@),
        opt_string_bound(p.repo_name),
        opt_string_bound(p.notes),
        Bound::Text(clock_text(t)),
        Bound::Text(clock_text(t)),
    ])
}

/// The row of a new document, created at the time `t`, with the size of
/// its content in bytes.
pub open spec fn document_insert_write(p: CreateDocumentParams, t: Timestamp) -> Write {
    (insert_sql("INSERT"@, "documents"@, document_insert_columns()), seq![
        Bound::Text(default_user()),
        opt_int_bound(p.project_id),
        Bound::Text(p.title@),
        Bound::Text(p.description@),
        Bound::Text(p.content@),
        opt_string_bound(p.document_type),
        opt_string_bound(p.filename),
        Bound::Integer(byte_len(p.content@) as i64),
        Bound::Text(json_string_list_text(p.tags.deep_view())),
        Bound::Text(clock_text(t)),
        Bound::Text(clock_text(t)),
    ])
}

/// The row of a new code artifact, created at the time `t`.
pub open spec fn code_artifact_insert_write(p: CreateCodeArtifactParams, t: Timestamp) -> Write {
    (insert_sql("INSERT"@, "code_artifacts"@, code_artifact_insert_columns()), seq![
        Bound::Text(default_user()),
        opt_int_bound(p.project_id),
        Bound::Text(p.title@),
        Bound::Text(p.description@),
        Bound::Text(p.code@),
        Bound::Text(p.language@),
        Bound::Text(json_string_list_text(p.tags.deep_view())),
        Bound::Text(clock_text(t)),
        Bound::Text(clock_text(t)),
    ])
}

/// The row `create_project` inserts takes each field in the column of that
/// name: its statement is an insert into `projects` that binds the default
/// user to `user_id`, the name to `name`, the description to `description`,
/// the type to `project_type`, `active` to `status`, the repository to
/// `repo_name` and the notes to `notes`.
#[verifier::rlimit(40)]
pub proof fn lemma_project_insert_fields(p: CreateProjectParams, t: Timestamp)
    ensures
        ({
            let w = project_insert_write(p, t);
            let (verb, table) = ("INSERT"@, "projects"@);
            &&& inserts_value(w, verb, table, "user_id"@, Bound::Text(default_user()))
            &&& inserts_value(w, verb, table, "name"@, Bound::Text(p.name@))
            &&& inserts_value(w, verb, table, "description"@, Bound::Text(p.description@))
            &&& inserts_value(w, verb, table, "project_type"@, opt_string_bound(p.project_type))
            &&& inserts_value(w, verb, table, "status"@, Bound::Text("active"@))
            &&& inserts_value(w, verb, table, "repo_name"@, opt_string_bound(p.repo_name))
            &&& inserts_value(w, verb, table, "notes"@, opt_string_bound(p.notes))
        }),
{
    let w = project_insert_write(p, t);
    let cols = project_insert_columns();
    reveal_strlit("user_id");
    reveal_strlit("name");
    reveal_strlit("description");
    reveal_strlit("project_type");
    reveal_strlit("status");
    reveal_strlit("repo_name");
    reveal_strlit("notes");
    reveal_strlit("created_at");
    reveal_strlit("updated_at");
    assert forall|i: int, j: int| 0 <= i < cols.len() && 0 <= j < cols.len() && i != j implies cols[i] != cols[j] by {
        if cols[i] == cols[j] {
            assert(cols[i].len() == cols[j].len());
            assert(cols[i][0] == cols[j][0]);
            assert(cols[i][1] == cols[j][1]);
        }
    }
    lemma_insert_binds(w, "INSERT"@, "projects"@, cols, 0);
    lemma_insert_binds(w, "INSERT"@, "projects"@, cols, 1);
    lemma_insert_binds(w, "INSERT"@, "projects"@, cols, 2);
    lemma_insert_binds(w, "INSERT"@, "projects"@, cols, 3);
    lemma_insert_binds(w, "INSERT"@, "projects"@, cols, 4);
    lemma_insert_binds(w, "INSERT"@, "projects"@, cols, 5);
    lemma_insert_binds(w, "INSERT"@, "projects"@, cols, 6);
}

/// The row `create_document` inserts takes each field in the column of
/// that name: its statement is an insert into `documents` that binds the
/// default user to `user_id`, the project to `project_id`, the title to
/// `title`, the description to `description`, the content to `content`, the
/// type to `document_type`, the file name to `filename`, the content's size
/// in bytes to `size_bytes` and the JSON of the tags to `tags`.
#[verifier::rlimit(60)]
pub proof fn lemma_document_insert_fields(p: CreateDocumentParams, t: Timestamp)
    ensures
        ({
            let w = document_insert_write(p, t);
            let (verb, table) = ("INSERT"@, "documents"@);
            &&& inserts_value(w, verb, table, "user_id"@, Bound::Text(default_user()))
            &&& inserts_value(w, verb, table, "project_id"@, opt_int_bound(p.project_id))
            &&& inserts_value(w, verb, table, "title"@, Bound::Text(p.title@))
            &&& inserts_value(w, verb, table, "description"@, Bound::Text(p.description@))
            &&& inserts_value(w, verb, table, "content"@, Bound::Text(p.content@))
            &&& inserts_value(w, verb, table, "document_type"@, opt_string_bound(p.document_type))
            &&& inserts_value(w, verb, table, "filename"@, opt_string_bound(p.filename))
            &&& inserts_value(w, verb, table, "size_bytes"@, Bound::Integer(byte_len(p.content@) as i64))
            &&& inserts_value(w, verb, table, "tags"@, Bound::Text(json_string_list_text(p.tags.deep_view())))
        }),
{
    let w = document_insert_write(p, t);
    let cols = document_insert_columns();
    reveal_strlit("user_id");
    reveal_strlit("project_id");
    reveal_strlit("title");
    reveal_strlit("description");
    reveal_strlit("content");
    reveal_strlit("document_type");
    reveal_strlit("filename");
    reveal_strlit("size_bytes");
    reveal_strlit("tags");
    reveal_strlit("created_at");
    reveal_strlit("updated_at");
    assert forall|i: int, j: int| 0 <= i < cols.len() && 0 <= j < cols.len() && i != j implies cols[i] != cols[j] by {
        if cols[i] == cols[j] {
            assert(cols[i].len() == cols[j].len());
            assert(cols[i][0] == cols[j][0]);
            assert(cols[i][1] == cols[j][1]);
            assert(cols[i][2] == cols[j][2]);
        }
    }
    lemma_insert_binds(w, "INSERT"@, "documents"@, cols, 0);
    lemma_insert_binds(w, "INSERT"@, "documents"@, cols, 1);
    lemma_insert_binds(w, "INSERT"@, "documents"@, cols, 2);
    lemma_insert_binds(w, "INSERT"@, "documents"@, cols, 3);
    lemma_insert_binds(w, "INSERT"@, "documents"@, cols, 4);
    lemma_insert_binds(w, "INSERT"@, "documents"@, cols, 5);
    lemma_insert_binds(w, "INSERT"@, "documents"@, cols, 6);
    lemma_insert_binds(w, "INSERT"@, "documents"@, cols, 7);
    lemma_insert_binds(w, "INSERT"@, "documents"@, cols, 8);
}

/// The row `create_code_artifact` inserts takes each field in the column of
/// that name: its statement is an insert into `code_artifacts` that binds
/// the default user to `user_id`, the project to `project_id`, the title to
/// `title`, the description to `description`, the code to `code`, the
/// language to `language` and the JSON of the tags to `tags`.
#[verifier::rlimit(40)]
pub proof fn lemma_code_artifact_insert_fields(p: CreateCodeArtifactParams, t: Timestamp)
    ensures
        ({
            let w = code_artifact_insert_write(p, t);
            let (verb, table) = ("INSERT"@, "code_artifacts"@);
            &&& inserts_value(w, verb, table, "user_id"@, Bound::Text(default_user()))
            &&& inserts_value(w, verb, table, "project_id"@, opt_int_bound(p.project_id))
            &&& inserts_value(w, verb, table, "title"@, Bound::Text(p.title@))
            &&& inserts_value(w, verb, table, "description"@, Bound::Text(p.description@))
            &&& inserts_value(w, verb, table, "code"@, Bound::Text(p.code@))
            &&& inserts_value(w, verb, table, "language"@, Bound::Text(p.language@))
            &&& inserts_value(w, verb, table, "tags"@, Bound::Text(json_string_list_text(p.tags.deep_view())))
        }),
{
    let w = code_artifact_insert_write(p, t);
    let cols = code_artifact_insert_columns();
    reveal_strlit("user_id");
    reveal_strlit("project_id");
    reveal_strlit("title");
    reveal_strlit("description");
    reveal_strlit("code");
    reveal_strlit("language");
    reveal_strlit("tags");
    reveal_strlit("created_at");
    reveal_strlit("updated_at");
    assert forall|i: int, j: int| 0 <= i < cols.len() && 0 <= j < cols.len() && i != j implies cols[i] != cols[j] by {
        if cols[i] == cols[j] {
            assert(cols[i].len() == cols[j].len());
            assert(cols[i][0] == cols[j][0]);
            assert(cols[i][1] == cols[j][1]);
        }
    }
    lemma_insert_binds(w, "INSERT"@, "code_artifacts"@, cols, 0);
    lemma_insert_binds(w, "INSERT"@, "code_artifacts"@, cols, 1);
    lemma_insert_binds(w, "INSERT"@, "code_artifacts"@, cols, 2);
    lemma_insert_binds(w, "INSERT"@, "code_artifacts"@, cols, 3);
    lemma_insert_binds(w, "INSERT"@, "code_artifacts"@, cols, 4);
    lemma_insert_binds(w, "INSERT"@, "code_artifacts"@, cols, 5);
    lemma_insert_binds(w, "INSERT"@, "code_artifacts"@, cols, 6);
}

pub const PROJECTS_BASE: &'static str = "SELECT id, user_id, name, description, project_type, status, repo_name, notes, created_at, updated_at FROM projects WHERE 1=1";

pub const PROJECTS_ORDER: &'static str = " ORDER BY name";

pub const DOCUMENTS_BASE: &'static str = "SELECT id, user_id, project_id, title, description, content, document_type, filename, size_bytes, tags, created_at, updated_at FROM documents WHERE 1=1";

pub const DOCUMENTS_ORDER: &'static str = " ORDER BY updated_at DESC";

pub const CODE_ARTIFACTS_BASE: &'static str = "SELECT id, user_id, project_id, title, description, code, language, tags, created_at, updated_at FROM code_artifacts WHERE 1=1";

pub const CODE_ARTIFACTS_ORDER: &'static str = " ORDER BY updated_at DESC";

/// The value bound for an optional text filter: one when it is given.
pub open spec fn str_if(o: Option<&str>) -> Seq<Bound> {
    match o {
        Some(s) => seq![Bound::Text(s@)],
        None => seq![],
    }
}

/// The value bound for an optional integer filter: one when it is given.
pub open spec fn int_if(o: Option<i64>) -> Seq<Bound> {
    match o {
        Some(i) => seq![Bound::Integer(i)],
        None => seq![],
    }
}

pub const PROJECT_MEMORY_COUNT: &'static str = "SELECT COUNT(*) FROM memory_project_association WHERE project_id = ?1";

pub const PROJECT_BY_ID: &'static str = "SELECT id, user_id, name, description, project_type, status, repo_name, notes, created_at, updated_at FROM projects WHERE id = ?1";

/// The columns a project is read with, in order (see `project_from_row`).
pub open spec fn project_row_columns() -> Seq<Seq<char>> {
    seq!["id"@, "user_id"@, "name"@, "description"@, "project_type"@, "status"@, "repo_name"@, "notes"@, "created_at"@, "updated_at"@]
}

/// `PROJECT_BY_ID` reads `project_row_columns` of the project with the id.
#[verifier::rlimit(40)]
pub proof fn lemma_project_by_id_text()
    ensures
        PROJECT_BY_ID@ == select_from(project_row_columns(), "projects WHERE id = ?1"@),
{
    let c = project_row_columns();
    assert(c.skip(1)[0] == c[1]);
    assert(c.skip(2)[0] == c[2]);
    assert(c.skip(3)[0] == c[3]);
    assert(c.skip(4)[0] == c[4]);
    assert(c.skip(5)[0] == c[5]);
    assert(c.skip(6)[0] == c[6]);
    assert(c.skip(7)[0] == c[7]);
    assert(c.skip(8)[0] == c[8]);
    assert(c.skip(9)[0] == c[9]);
    assert(c.skip(10) =~= Seq::<Seq<char>>::empty());
    assert(more_names(c.skip(10)) =~= Seq::<char>::empty());
    assert(c.skip(9).drop_first() =~= c.skip(10));
    assert(more_names(c.skip(9)) =~= ", "@ + c[9] + more_names(c.skip(10)));
    assert(c.skip(8).drop_first() =~= c.skip(9));
    assert(more_names(c.skip(8)) =~= ", "@ + c[8] + more_names(c.skip(9)));
    assert(c.skip(7).drop_first() =~= c.skip(8));
    assert(more_names(c.skip(7)) =~= ", "@ + c[7] + more_names(c.skip(8)));
    assert(c.skip(6).drop_first() =~= c.skip(7));
    assert(more_names(c.skip(6)) =~= ", "@ + c[6] + more_names(c.skip(7)));
    assert(c.skip(5).drop_first() =~= c.skip(6));
    assert(more_names(c.skip(5)) =~= ", "@ + c[5] + more_names(c.skip(6)));
    assert(c.skip(4).drop_first() =~= c.skip(5));
    assert(more_names(c.skip(4)) =~= ", "@ + c[4] + more_names(c.skip(5)));
    assert(c.skip(3).drop_first() =~= c.skip(4));
    assert(more_names(c.skip(3)) =~= ", "@ + c[3] + more_names(c.skip(4)));
    assert(c.skip(2).drop_first() =~= c.skip(3));
    assert(more_names(c.skip(2)) =~= ", "@ + c[2] + more_names(c.skip(3)));
    assert(c.skip(1).drop_first() =~= c.skip(2));
    assert(more_names(c.skip(1)) =~= ", "@ + c[1] + more_names(c.skip(2)));
    assert(c.drop_first() =~= c.skip(1));
    reveal_strlit("id");
    reveal_strlit("user_id");
    reveal_strlit("name");
    reveal_strlit("description");
    reveal_strlit("project_type");
    reveal_strlit("status");
    reveal_strlit("repo_name");
    reveal_strlit("notes");
    reveal_strlit("created_at");
    reveal_strlit("updated_at");
    reveal_strlit(", ");
    reveal_strlit("id, user_id, name, description, project_type, status, repo_name, notes, created_at, updated_at");
    assert(name_list(c) =~= "id, user_id, name, description, project_type, status, repo_name, notes, created_at, updated_at"@);
    reveal_strlit("SELECT ");
    reveal_strlit(" FROM ");
    reveal_strlit("projects WHERE id = ?1");
    reveal_strlit("SELECT id, user_id, name, description, project_type, status, repo_name, notes, created_at, updated_at FROM projects WHERE id = ?1");
    assert(PROJECT_BY_ID@ =~= select_from(c, "projects WHERE id = ?1"@));
}

/// A project read from a row of `project_row_columns` takes each field
/// from the column of that name: its name from `name`, its description from `description`, its type from `project_type`, its status from `status`, its repository from `repo_name`, its notes from `notes`.
#[verifier::rlimit(40)]
pub proof fn lemma_project_row_columns(row: Seq<SqlValue>, x: Project)
    requires
        project_row_valid(row),
        project_from_row(row, x),
    ensures
        distinct_names(project_row_columns()),
        forall|i: int| 0 <= i < 10 && #[trigger] project_row_columns()[i] == "name"@
            ==> text_of(row[i]) == Some(x.name@),
        forall|i: int| 0 <= i < 10 && #[trigger] project_row_columns()[i] == "description"@
            ==> text_of(row[i]) == Some(x.description@),
        forall|i: int| 0 <= i < 10 && #[trigger] project_row_columns()[i] == "project_type"@
            ==> opt_text_of(row[i]) == Some(view_opt(x.project_type)),
        forall|i: int| 0 <= i < 10 && #[trigger] project_row_columns()[i] == "status"@
            ==> text_of(row[i]) == Some(x.status@),
        forall|i: int| 0 <= i < 10 && #[trigger] project_row_columns()[i] == "repo_name"@
            ==> opt_text_of(row[i]) == Some(view_opt(x.repo_name)),
        forall|i: int| 0 <= i < 10 && #[trigger] project_row_columns()[i] == "notes"@
            ==> opt_text_of(row[i]) == Some(view_opt(x.notes)),
{
    let c = project_row_columns();
    reveal_strlit("id");
    reveal_strlit("user_id");
    reveal_strlit("name");
    reveal_strlit("description");
    reveal_strlit("project_type");
    reveal_strlit("status");
    reveal_strlit("repo_name");
    reveal_strlit("notes");
    reveal_strlit("created_at");
    reveal_strlit("updated_at");
    assert forall|a: int, b: int| 0 <= a < c.len() && 0 <= b < c.len() && a != b implies c[a] != c[b] by {
        if c[a] == c[b] {
            assert(c[a].len() == c[b].len());
            assert(c[a][0] == c[b][0]);
            assert(c[a][1] == c[b][1]);
            assert(c[a][2] == c[b][2]);
            assert(c[a][c[a].len() - 1] == c[b][c[b].len() - 1]);
            assert(c[a][c[a].len() - 2] == c[b][c[b].len() - 2]);
        }
    }
}

/// `x` is the project with that id: what the first row SQLite answered
/// for it reads as.
pub open spec fn project_loaded(id: i64, x: Project) -> bool {
    exists|row: Vec<SqlValue>| #[trigger] first_answer(PROJECT_BY_ID@, seq![Bound::Integer(id)], Some(row))
        && project_row_valid(row@) && project_from_row(row@, x)
}

/// No project with that id can be read: SQLite answered no row for
/// it, or a row that does not read as one.
pub open spec fn project_missing(id: i64) -> bool {
    exists|first: Option<Vec<SqlValue>>| #[trigger] first_answer(PROJECT_BY_ID@, seq![Bound::Integer(id)], first)
        && (first matches Some(row) ==> !project_row_valid(row@))
}

pub const DOCUMENT_BY_ID: &'static str = "SELECT id, user_id, project_id, title, description, content, document_type, filename, size_bytes, tags, created_at, updated_at FROM documents WHERE id = ?1";

/// The columns a document is read with, in order (see `document_from_row`).
pub open spec fn document_row_columns() -> Seq<Seq<char>> {
    seq!["id"@, "user_id"@, "project_id"@, "title"@, "description"@, "content"@, "document_type"@, "filename"@, "size_bytes"@, "tags"@, "created_at"@, "updated_at"@]
}

/// `DOCUMENT_BY_ID` reads `document_row_columns` of the document with the id.
#[verifier::rlimit(40)]
pub proof fn lemma_document_by_id_text()
    ensures
        DOCUMENT_BY_ID@ == select_from(document_row_columns(), "documents WHERE id = ?1"@),
{
    let c = document_row_columns();
    assert(c.skip(1)[0] == c[1]);
    assert(c.skip(2)[0] == c[2]);
    assert(c.skip(3)[0] == c[3]);
    assert(c.skip(4)[0] == c[4]);
    assert(c.skip(5)[0] == c[5]);
    assert(c.skip(6)[0] == c[6]);
    assert(c.skip(7)[0] == c[7]);
    assert(c.skip(8)[0] == c[8]);
    assert(c.skip(9)[0] == c[9]);
    assert(c.skip(10)[0] == c[10]);
    assert(c.skip(11)[0] == c[11]);
    assert(c.skip(12) =~= Seq::<Seq<char>>::empty());
    assert(more_names(c.skip(12)) =~= Seq::<char>::empty());
    assert(c.skip(11).drop_first() =~= c.skip(12));
    assert(more_names(c.skip(11)) =~= ", "@ + c[11] + more_names(c.skip(12)));
    assert(c.skip(10).drop_first() =~= c.skip(11));
    assert(more_names(c.skip(10)) =~= ", "@ + c[10] + more_names(c.skip(11)));
    assert(c.skip(9).drop_first() =~= c.skip(10));
    assert(more_names(c.skip(9)) =~= ", "@ + c[9] + more_names(c.skip(10)));
    assert(c.skip(8).drop_first() =~= c.skip(9));
    assert(more_names(c.skip(8)) =~= ", "@ + c[8] + more_names(c.skip(9)));
    assert(c.skip(7).drop_first() =~= c.skip(8));
    assert(more_names(c.skip(7)) =~= ", "@ + c[7] + more_names(c.skip(8)));
    assert(c.skip(6).drop_first() =~= c.skip(7));
    assert(more_names(c.skip(6)) =~= ", "@ + c[6] + more_names(c.skip(7)));
    assert(c.skip(5).drop_first() =~= c.skip(6));
    assert(more_names(c.skip(5)) =~= ", "@ + c[5] + more_names(c.skip(6)));
    assert(c.skip(4).drop_first() =~= c.skip(5));
    assert(more_names(c.skip(4)) =~= ", "@ + c[4] + more_names(c.skip(5)));
    assert(c.skip(3).drop_first() =~= c.skip(4));
    assert(more_names(c.skip(3)) =~= ", "@ + c[3] + more_names(c.skip(4)));
    assert(c.skip(2).drop_first() =~= c.skip(3));
    assert(more_names(c.skip(2)) =~= ", "@ + c[2] + more_names(c.skip(3)));
    assert(c.skip(1).drop_first() =~= c.skip(2));
    assert(more_names(c.skip(1)) =~= ", "@ + c[1] + more_names(c.skip(2)));
    assert(c.drop_first() =~= c.skip(1));
    reveal_strlit("id");
    reveal_strlit("user_id");
    reveal_strlit("project_id");
    reveal_strlit("title");
    reveal_strlit("description");
    reveal_strlit("content");
    reveal_strlit("document_type");
    reveal_strlit("filename");
    reveal_strlit("size_bytes");
    reveal_strlit("tags");
    reveal_strlit("created_at");
    reveal_strlit("updated_at");
    reveal_strlit(", ");
    reveal_strlit("id, user_id, project_id, title, description, content, document_type, filename, size_bytes, tags, created_at, updated_at");
    assert(name_list(c) =~= "id, user_id, project_id, title, description, content, document_type, filename, size_bytes, tags, created_at, updated_at"@);
    reveal_strlit("SELECT ");
    reveal_strlit(" FROM ");
    reveal_strlit("documents WHERE id = ?1");
    reveal_strlit("SELECT id, user_id, project_id, title, description, content, document_type, filename, size_bytes, tags, created_at, updated_at FROM documents WHERE id = ?1");
    assert(DOCUMENT_BY_ID@ =~= select_from(c, "documents WHERE id = ?1"@));
}

/// A document read from a row of `document_row_columns` takes each field
/// from the column of that name: its project from `project_id`, its title from `title`, its description from `description`, its content from `content`, its type from `document_type`, its file name from `filename`, its size from `size_bytes`, its tags from `tags`.
#[verifier::rlimit(40)]
pub proof fn lemma_document_row_columns(row: Seq<SqlValue>, x: Document)
    requires
        document_row_valid(row),
        document_from_row(row, x),
    ensures
        distinct_names(document_row_columns()),
        forall|i: int| 0 <= i < 12 && #[trigger] document_row_columns()[i] == "project_id"@
            ==> opt_int_of(row[i]) == Some(x.project_id),
        forall|i: int| 0 <= i < 12 && #[trigger] document_row_columns()[i] == "title"@
            ==> text_of(row[i]) == Some(x.title@),
        forall|i: int| 0 <= i < 12 && #[trigger] document_row_columns()[i] == "description"@
            ==> text_of(row[i]) == Some(x.description@),
        forall|i: int| 0 <= i < 12 && #[trigger] document_row_columns()[i] == "content"@
            ==> text_of(row[i]) == Some(x.content@),
        forall|i: int| 0 <= i < 12 && #[trigger] document_row_columns()[i] == "document_type"@
            ==> opt_text_of(row[i]) == Some(view_opt(x.document_type)),
        forall|i: int| 0 <= i < 12 && #[trigger] document_row_columns()[i] == "filename"@
            ==> opt_text_of(row[i]) == Some(view_opt(x.filename)),
        forall|i: int| 0 <= i < 12 && #[trigger] document_row_columns()[i] == "size_bytes"@
            ==> int_of(row[i]) == Some(x.size_bytes),
        forall|i: int| 0 <= i < 12 && #[trigger] document_row_columns()[i] == "tags"@
            ==> string_list_of(row[i]) == Some(x.tags.deep_view()),
{
    let c = document_row_columns();
    reveal_strlit("id");
    reveal_strlit("user_id");
    reveal_strlit("project_id");
    reveal_strlit("title");
    reveal_strlit("description");
    reveal_strlit("content");
    reveal_strlit("document_type");
    reveal_strlit("filename");
    reveal_strlit("size_bytes");
    reveal_strlit("tags");
    reveal_strlit("created_at");
    reveal_strlit("updated_at");
    assert forall|a: int, b: int| 0 <= a < c.len() && 0 <= b < c.len() && a != b implies c[a] != c[b] by {
        if c[a] == c[b] {
            assert(c[a].len() == c[b].len());
            assert(c[a][0] == c[b][0]);
            assert(c[a][1] == c[b][1]);
            assert(c[a][2] == c[b][2]);
            assert(c[a][c[a].len() - 1] == c[b][c[b].len() - 1]);
            assert(c[a][c[a].len() - 2] == c[b][c[b].len() - 2]);
        }
    }
}

/// `x` is the document with that id: what the first row SQLite answered
/// for it reads as.
pub open spec fn document_loaded(id: i64, x: Document) -> bool {
    exists|row: Vec<SqlValue>| #[trigger] first_answer(DOCUMENT_BY_ID@, seq![Bound::Integer(id)], Some(row))
        && document_row_valid(row@) && document_from_row(row@, x)
}

/// No document with that id can be read: SQLite answered no row for
/// it, or a row that does not read as one.
pub open spec fn document_missing(id: i64) -> bool {
    exists|first: Option<Vec<SqlValue>>| #[trigger] first_answer(DOCUMENT_BY_ID@, seq![Bound::Integer(id)], first)
        && (first matches Some(row) ==> !document_row_valid(row@))
}

pub const CODE_ARTIFACT_BY_ID: &'static str = "SELECT id, user_id, project_id, title, description, code, language, tags, created_at, updated_at FROM code_artifacts WHERE id = ?1";

/// The columns a code artifact is read with, in order (see `code_artifact_from_row`).
pub open spec fn code_artifact_row_columns() -> Seq<Seq<char>> {
    seq!["id"@, "user_id"@, "project_id"@, "title"@, "description"@, "code"@, "language"@, "tags"@, "created_at"@, "updated_at"@]
}

/// `CODE_ARTIFACT_BY_ID` reads `code_artifact_row_columns` of the code artifact with the id.
#[verifier::rlimit(40)]
pub proof fn lemma_code_artifact_by_id_text()
    ensures
        CODE_ARTIFACT_BY_ID@ == select_from(code_artifact_row_columns(), "code_artifacts WHERE id = ?1"@),
{
    let c = code_artifact_row_columns();
    assert(c.skip(1)[0] == c[1]);
    assert(c.skip(2)[0] == c[2]);
    assert(c.skip(3)[0] == c[3]);
    assert(c.skip(4)[0] == c[4]);
    assert(c.skip(5)[0] == c[5]);
    assert(c.skip(6)[0] == c[6]);
    assert(c.skip(7)[0] == c[7]);
    assert(c.skip(8)[0] == c[8]);
    assert(c.skip(9)[0] == c[9]);
    assert(c.skip(10) =~= Seq::<Seq<char>>::empty());
    assert(more_names(c.skip(10)) =~= Seq::<char>::empty());
    assert(c.skip(9).drop_first() =~= c.skip(10));
    assert(more_names(c.skip(9)) =~= ", "@ + c[9] + more_names(c.skip(10)));
    assert(c.skip(8).drop_first() =~= c.skip(9));
    assert(more_names(c.skip(8)) =~= ", "@ + c[8] + more_names(c.skip(9)));
    assert(c.skip(7).drop_first() =~= c.skip(8));
    assert(more_names(c.skip(7)) =~= ", "@ + c[7] + more_names(c.skip(8)));
    assert(c.skip(6).drop_first() =~= c.skip(7));
    assert(more_names(c.skip(6)) =~= ", "@ + c[6] + more_names(c.skip(7)));
    assert(c.skip(5).drop_first() =~= c.skip(6));
    assert(more_names(c.skip(5)) =~= ", "@ + c[5] + more_names(c.skip(6)));
    assert(c.skip(4).drop_first() =~= c.skip(5));
    assert(more_names(c.skip(4)) =~= ", "@ + c[4] + more_names(c.skip(5)));
    assert(c.skip(3).drop_first() =~= c.skip(4));
    assert(more_names(c.skip(3)) =~= ", "@ + c[3] + more_names(c.skip(4)));
    assert(c.skip(2).drop_first() =~= c.skip(3));
    assert(more_names(c.skip(2)) =~= ", "@ + c[2] + more_names(c.skip(3)));
    assert(c.skip(1).drop_first() =~= c.skip(2));
    assert(more_names(c.skip(1)) =~= ", "@ + c[1] + more_names(c.skip(2)));
    assert(c.drop_first() =~= c.skip(1));
    reveal_strlit("id");
    reveal_strlit("user_id");
    reveal_strlit("project_id");
    reveal_strlit("title");
    reveal_strlit("description");
    reveal_strlit("code");
    reveal_strlit("language");
    reveal_strlit("tags");
    reveal_strlit("created_at");
    reveal_strlit("updated_at");
    reveal_strlit(", ");
    reveal_strlit("id, user_id, project_id, title, description, code, language, tags, created_at, updated_at");
    assert(name_list(c) =~= "id, user_id, project_id, title, description, code, language, tags, created_at, updated_at"@);
    reveal_strlit("SELECT ");
    reveal_strlit(" FROM ");
    reveal_strlit("code_artifacts WHERE id = ?1");
    reveal_strlit("SELECT id, user_id, project_id, title, description, code, language, tags, created_at, updated_at FROM code_artifacts WHERE id = ?1");
    assert(CODE_ARTIFACT_BY_ID@ =~= select_from(c, "code_artifacts WHERE id = ?1"@));
}

/// A code artifact read from a row of `code_artifact_row_columns` takes each field
/// from the column of that name: its project from `project_id`, its title from `title`, its description from `description`, its code from `code`, its language from `language`, its tags from `tags`.
#[verifier::rlimit(40)]
pub proof fn lemma_code_artifact_row_columns(row: Seq<SqlValue>, x: CodeArtifact)
    requires
        code_artifact_row_valid(row),
        code_artifact_from_row(row, x),
    ensures
        distinct_names(code_artifact_row_columns()),
        forall|i: int| 0 <= i < 10 && #[trigger] code_artifact_row_columns()[i] == "project_id"@
            ==> opt_int_of(row[i]) == Some(x.project_id),
        forall|i: int| 0 <= i < 10 && #[trigger] code_artifact_row_columns()[i] == "title"@
            ==> text_of(row[i]) == Some(x.title@),
        forall|i: int| 0 <= i < 10 && #[trigger] code_artifact_row_columns()[i] == "description"@
            ==> text_of(row[i]) == Some(x.description@),
        forall|i: int| 0 <= i < 10 && #[trigger] code_artifact_row_columns()[i] == "code"@
            ==> text_of(row[i]) == Some(x.code@),
        forall|i: int| 0 <= i < 10 && #[trigger] code_artifact_row_columns()[i] == "language"@
            ==> text_of(row[i]) == Some(x.language@),
        forall|i: int| 0 <= i < 10 && #[trigger] code_artifact_row_columns()[i] == "tags"@
            ==> string_list_of(row[i]) == Some(x.tags.deep_view()),
{
    let c = code_artifact_row_columns();
    reveal_strlit("id");
    reveal_strlit("user_id");
    reveal_strlit("project_id");
    reveal_strlit("title");
    reveal_strlit("description");
    reveal_strlit("code");
    reveal_strlit("language");
    reveal_strlit("tags");
    reveal_strlit("created_at");
    reveal_strlit("updated_at");
    assert forall|a: int, b: int| 0 <= a < c.len() && 0 <= b < c.len() && a != b implies c[a] != c[b] by {
        if c[a] == c[b] {
            assert(c[a].len() == c[b].len());
            assert(c[a][0] == c[b][0]);
            assert(c[a][1] == c[b][1]);
            assert(c[a][2] == c[b][2]);
            assert(c[a][c[a].len() - 1] == c[b][c[b].len() - 1]);
            assert(c[a][c[a].len() - 2] == c[b][c[b].len() - 2]);
        }
    }
}

/// `x` is the code artifact with that id: what the first row SQLite answered
/// for it reads as.
pub open spec fn code_artifact_loaded(id: i64, x: CodeArtifact) -> bool {
    exists|row: Vec<SqlValue>| #[trigger] first_answer(CODE_ARTIFACT_BY_ID@, seq![Bound::Integer(id)], Some(row))
        && code_artifact_row_valid(row@) && code_artifact_from_row(row@, x)
}

/// No code artifact with that id can be read: SQLite answered no row for
/// it, or a row that does not read as one.
pub open spec fn code_artifact_missing(id: i64) -> bool {
    exists|first: Option<Vec<SqlValue>>| #[trigger] first_answer(CODE_ARTIFACT_BY_ID@, seq![Bound::Integer(id)], first)
        && (first matches Some(row) ==> !code_artifact_row_valid(row@))
}

impl Database {
    /// Creates an active project owned by the default user and logs it.
    pub fn create_project(&mut self, p: &CreateProjectParams) -> (r: Result<Project, DbError>)
        ensures
            r matches Ok(x) ==> exists|t: Timestamp, id: i64| final(self).log() == old(self).log() + seq![
                #[trigger] project_insert_write(*p, t),
                #[trigger] activity_write("project"@, id, "create"@, None),
            ] && project_loaded(id, x) && inserted_rowid(old(self).log().push(project_insert_write(*p, t)), id),
            r matches Ok(x) ==> project_read(x),
            r matches Err(e) ==> (e is Sqlite || e is InvalidTimestamp || e is NotFound),
            r matches Err(DbError::InvalidTimestamp) ==> final(self).log() == old(self).log(),
            r matches Err(e) ==> (e is InvalidTimestamp || exists|t: Timestamp| {
                ||| !(e is NotFound) && final(self).log() == old(self).log() + seq![#[trigger] project_insert_write(*p, t)]
                ||| exists|id: i64| final(self).log() == old(self).log() + seq![
                        project_insert_write(*p, t),
                        #[trigger] activity_write("project"@, id, "create"@, None),
                    ] && inserted_rowid(old(self).log().push(project_insert_write(*p, t)), id)
                    && (e is NotFound ==> project_missing(id))
            }),
    {
        let (now, now_v) = now_value()?;
        let now_v2 = match &now_v { SqlValue::Text(t) => SqlValue::Text(t.clone()), _ => SqlValue::Null };
        let params = vec![
            SqlValue::Text(Database::default_user_id()),
            SqlValue::Text(p.name.clone()),
            SqlValue::Text(p.description.clone()),
            opt_string_value(&p.project_type),
            SqlValue::Text("active".to_owned()),
            opt_string_value(&p.repo_name),
            opt_string_value(&p.notes),
            now_v,
            now_v2,
        ];
        assert(bound_all(params@) =~= project_insert_write(*p, now).1);
        let columns: Vec<&'static str> = vec![
            "user_id", "name", "description", "project_type", "status", "repo_name", "notes",
            "created_at", "updated_at",
        ];
        assert(views(columns@) =~= project_insert_columns());
        let insert = insert_statement("INSERT", "projects", &columns);
        if let Err(e) = self.execute(insert.as_str(), params) {
            assert(self.log() =~= old(self).log() + seq![project_insert_write(*p, now)]);
            return Err(e);
        }
        let id = self.last_insert_rowid();
        let logged = self.log_activity("project", id, "create", None);
        assert(self.log() =~= old(self).log() + seq![
            project_insert_write(*p, now),
            activity_write("project"@, id, "create"@, None),
        ]);
        if let Err(e) = logged {
            return Err(e);
        }
        self.get_project_inner(id)
    }

    /// A project by id.
    pub fn get_project(&self, project_id: i64) -> (r: Result<ProjectWithCount, DbError>)
        ensures
            r matches Ok(x) ==> project_read(x.project),
            r matches Ok(x) ==> project_loaded(project_id, x.project),
            r matches Ok(x) ==> count_answered(PROJECT_MEMORY_COUNT@, seq![Bound::Integer(project_id)], x.memory_count),
            r is Err ==> project_missing(project_id),
            r matches Err(e) ==> e == DbError::NotFound(RecordKind::Project, project_id),
    {
        let project = self.get_project_inner(project_id)?;
        let params: Vec<SqlValue> = vec![SqlValue::Integer(project_id)];
        assert(bound_all(params@) =~= seq![Bound::Integer(project_id)]);
        let memory_count = count_with(self, PROJECT_MEMORY_COUNT, params);
        Ok(ProjectWithCount { project, memory_count })
    }

    fn get_project_inner(&self, project_id: i64) -> (r: Result<Project, DbError>)
        ensures
            r matches Ok(x) ==> project_read(x),
            r matches Ok(x) ==> project_loaded(project_id, x),
            r is Err ==> project_missing(project_id),
            r matches Err(e) ==> e == DbError::NotFound(RecordKind::Project, project_id),
    {
        let params: Vec<SqlValue> = vec![SqlValue::Integer(project_id)];
        assert(bound_all(params@) =~= seq![Bound::Integer(project_id)]);
        let row = self.query_first(PROJECT_BY_ID, params, 10);
        let ghost first = row;
        assert(first_answer(PROJECT_BY_ID@, seq![Bound::Integer(project_id)], first));
        match row {
            Some(r) => {
                let ghost read = r@;
                match decode_project(r) {
                    Some(x) => {
                        assert(project_from_row(read, x));
                        Ok(x)
                    },
                    None => Err(DbError::NotFound(RecordKind::Project, project_id)),
                }
            },
            None => Err(DbError::NotFound(RecordKind::Project, project_id)),
        }
    }

    /// The projects by name, with the given repository and status when
    /// those are given.
    pub fn list_projects(&self, repo_name: Option<&str>, status: Option<&str>) -> (r: Result<Vec<Project>, DbError>)
        ensures
            r matches Ok(v) ==> forall|i: int| 0 <= i < v.len() ==> project_read(#[trigger] v@[i]),
            r matches Ok(v) ==> exists|rows: Seq<Vec<SqlValue>>|
                #[trigger] answered(
                    filter_sql(PROJECTS_BASE@, col_if(repo_name is Some, "repo_name"@) + col_if(status is Some, "status"@), PROJECTS_ORDER@),
                    str_if(repo_name) + str_if(status),
                    rows,
                ) && project_list_of(rows, v@),
            r is Err ==> r->Err_0 is Sqlite && query_failed(filter_sql(PROJECTS_BASE@, col_if(repo_name is Some, "repo_name"@) + col_if(status is Some, "status"@), PROJECTS_ORDER@),
                    str_if(repo_name) + str_if(status)),
    {
        let cols = filter_columns("repo_name", repo_name.is_some(), "status", status.is_some());
        let sql = filter_statement(PROJECTS_BASE, &cols, PROJECTS_ORDER);
        let mut params: Vec<SqlValue> = Vec::new();
        match repo_name { Some(v) => params.push(SqlValue::Text(v.to_owned())), None => {} }
        match status { Some(v) => params.push(SqlValue::Text(v.to_owned())), None => {} }
        assert(bound_all(params@) =~= str_if(repo_name) + str_if(status));
        let rows = self.query_ok_rows(sql.as_str(), params, 10)?;
        let ghost rv = rows@;
        let v = decode_all_projects(rows);
        assert(answered(
            filter_sql(PROJECTS_BASE@, col_if(repo_name is Some, "repo_name"@) + col_if(status is Some, "status"@), PROJECTS_ORDER@),
            str_if(repo_name) + str_if(status),
            rv,
        ));
        Ok(v)
    }

    /// Sets the given fields of a project (see `project_update_cols`), logs
    /// the update and returns the project.
    pub fn update_project(&mut self, p: &UpdateProjectParams) -> (r: Result<Project, DbError>)
        ensures
            (r is Ok || r matches Err(DbError::NotFound(_, _))) ==> exists|t: Timestamp, vals: Seq<Bound>|
                project_update_bound(*p, vals) && final(self).log() == old(self).log() + seq![
                #[trigger] update_write("projects"@, project_update_cols(*p), t, vals, p.project_id),
                activity_write("project"@, p.project_id, "update"@, None),
            ],
            r matches Err(DbError::Sqlite(_)) ==> exists|t: Timestamp, vals: Seq<Bound>| project_update_bound(*p, vals) && (
                final(self).log() == old(self).log() + seq![#[trigger] update_write("projects"@, project_update_cols(*p), t, vals, p.project_id)]
                || final(self).log() == old(self).log() + seq![
                    update_write("projects"@, project_update_cols(*p), t, vals, p.project_id),
                    activity_write("project"@, p.project_id, "update"@, None),
                ]),
            r matches Err(DbError::InvalidTimestamp) ==> final(self).log() == old(self).log(),
            r matches Ok(x) ==> project_read(x),
            r matches Err(e) ==> (e is Sqlite || e is InvalidTimestamp
                || e == DbError::NotFound(RecordKind::Project, p.project_id)),
            r matches Ok(x) ==> project_loaded(p.project_id, x),
            r matches Err(DbError::NotFound(_, _)) ==> project_missing(p.project_id),
    {
        let ghost start = self.log();
        let (cols, vals) = project_update_columns(p);
        let ghost vb = bound_all(vals@);
        let ran = run_update(self, "projects", &cols, vals, p.project_id);
        if let Err(e) = ran {
            proof {
                if !(e is InvalidTimestamp) {
                    let t = choose|t: Timestamp| sql_datetime_text(t) is Some
                        && self.log() == start.push(update_write("projects"@, views(cols@), t, vb, p.project_id));
                    assert(self.log() =~= start + seq![update_write("projects"@, project_update_cols(*p), t, vb, p.project_id)]);
                }
            }
            return Err(e);
        }
        let ghost t = choose|t: Timestamp| sql_datetime_text(t) is Some
            && self.log() == start.push(update_write("projects"@, views(cols@), t, vb, p.project_id));
        let logged = self.log_activity("project", p.project_id, "update", None);
        assert(self.log() =~= start + seq![
            update_write("projects"@, project_update_cols(*p), t, vb, p.project_id),
            activity_write("project"@, p.project_id, "update"@, None),
        ]);
        if let Err(e) = logged {
            return Err(e);
        }
        self.get_project_inner(p.project_id)
    }

    /// Deletes a project; the memories in it stay, without the association.
    pub fn delete_project(&mut self, project_id: i64) -> (r: Result<(), DbError>)
        ensures
            r is Ok ==> final(self).log() == old(self).log() + seq![
                activity_write("project"@, project_id, "delete"@, None),
                (PROJECT_DELETE@, seq![Bound::Integer(project_id)]),
            ],
            r is Err ==> r->Err_0 is Sqlite,
            r is Err ==> final(self).log() == old(self).log() + seq![activity_write("project"@, project_id, "delete"@, None)]
                || final(self).log() == old(self).log() + seq![
                    activity_write("project"@, project_id, "delete"@, None),
                    (PROJECT_DELETE@, seq![Bound::Integer(project_id)]),
                ],
    {
        if let Err(e) = self.log_activity_inner("project", project_id, "delete", None) {
            assert(self.log() =~= old(self).log() + seq![activity_write("project"@, project_id, "delete"@, None)]);
            return Err(e);
        }
        let params = vec![SqlValue::Integer(project_id)];
        assert(bound_all(params@) =~= seq![Bound::Integer(project_id)]);
        let done = self.execute(PROJECT_DELETE, params);
        assert(self.log() =~= old(self).log() + seq![
            activity_write("project"@, project_id, "delete"@, None),
            (PROJECT_DELETE@, seq![Bound::Integer(project_id)]),
        ]);
        if let Err(e) = done {
            return Err(e);
        }
        Ok(())
    }

    /// Stores a document, with the size in bytes of its content, and logs it.
    pub fn create_document(&mut self, p: &CreateDocumentParams) -> (r: Result<Document, DbError>)
        ensures
            r matches Ok(x) ==> exists|t: Timestamp, id: i64| final(self).log() == old(self).log() + seq![
                #[trigger] document_insert_write(*p, t),
                #[trigger] activity_write("document"@, id, "create"@, None),
            ] && document_loaded(id, x) && inserted_rowid(old(self).log().push(document_insert_write(*p, t)), id),
            r matches Ok(x) ==> document_read(x),
            r matches Err(e) ==> (e is Sqlite || e is InvalidTimestamp || e is NotFound),
            r matches Err(DbError::InvalidTimestamp) ==> final(self).log() == old(self).log(),
            r matches Err(e) ==> (e is InvalidTimestamp || exists|t: Timestamp| {
                ||| !(e is NotFound) && final(self).log() == old(self).log() + seq![#[trigger] document_insert_write(*p, t)]
                ||| exists|id: i64| final(self).log() == old(self).log() + seq![
                        document_insert_write(*p, t),
                        #[trigger] activity_write("document"@, id, "create"@, None),
                    ] && inserted_rowid(old(self).log().push(document_insert_write(*p, t)), id)
                    && (e is NotFound ==> document_missing(id))
            }),
    {
        let (now, now_v) = now_value()?;
        let now_v2 = match &now_v { SqlValue::Text(t) => SqlValue::Text(t.clone()), _ => SqlValue::Null };
        let tags_json = match json_encode_strings(&p.tags) { Ok(s) => s, Err(e) => { return Err(DbError::Json(e)); } };
        let size = content_size(&p.content);
        let params = vec![
            SqlValue::Text(Database::default_user_id()),
            opt_int_value(p.project_id),
            SqlValue::Text(p.title.clone()),
            SqlValue::Text(p.description.clone()),
            SqlValue::Text(p.content.clone()),
            opt_string_value(&p.document_type),
            opt_string_value(&p.filename),
            SqlValue::Integer(size),
            SqlValue::Text(tags_json),
            now_v,
            now_v2,
        ];
        assert(bound_all(params@) =~= document_insert_write(*p, now).1);
        let columns: Vec<&'static str> = vec![
            "user_id", "project_id", "title", "description", "content", "document_type",
            "filename", "size_bytes", "tags", "created_at", "updated_at",
        ];
        assert(views(columns@) =~= document_insert_columns());
        let insert = insert_statement("INSERT", "documents", &columns);
        if let Err(e) = self.execute(insert.as_str(), params) {
            assert(self.log() =~= old(self).log() + seq![document_insert_write(*p, now)]);
            return Err(e);
        }
        let id = self.last_insert_rowid();
        let logged = self.log_activity("document", id, "create", None);
        assert(self.log() =~= old(self).log() + seq![
            document_insert_write(*p, now),
            activity_write("document"@, id, "create"@, None),
        ]);
        if let Err(e) = logged {
            return Err(e);
        }
        self.get_document_inner(id)
    }

    /// A document by id, with its content.
    pub fn get_document(&self, document_id: i64) -> (r: Result<Document, DbError>)
        ensures
            r matches Ok(x) ==> document_read(x),
            r matches Err(e) ==> e == DbError::NotFound(RecordKind::Document, document_id),
            r matches Ok(x) ==> document_loaded(document_id, x),
            r matches Err(DbError::NotFound(_, _)) ==> document_missing(document_id),
    {
        self.get_document_inner(document_id)
    }

    fn get_document_inner(&self, document_id: i64) -> (r: Result<Document, DbError>)
        ensures
            r matches Ok(x) ==> document_read(x),
            r matches Ok(x) ==> document_loaded(document_id, x),
            r is Err ==> document_missing(document_id),
            r matches Err(e) ==> e == DbError::NotFound(RecordKind::Document, document_id),
    {
        let params: Vec<SqlValue> = vec![SqlValue::Integer(document_id)];
        assert(bound_all(params@) =~= seq![Bound::Integer(document_id)]);
        let row = self.query_first(DOCUMENT_BY_ID, params, 12);
        let ghost first = row;
        assert(first_answer(DOCUMENT_BY_ID@, seq![Bound::Integer(document_id)], first));
        match row {
            Some(r) => {
                let ghost read = r@;
                match decode_document(r) {
                    Some(x) => {
                        assert(document_from_row(read, x));
                        Ok(x)
                    },
                    None => Err(DbError::NotFound(RecordKind::Document, document_id)),
                }
            },
            None => Err(DbError::NotFound(RecordKind::Document, document_id)),
        }
    }

    /// The documents, most recently updated first, of the given project and
    /// type when those are given.
    pub fn list_documents(&self, project_id: Option<i64>, document_type: Option<&str>) -> (r: Result<Vec<Document>, DbError>)
        ensures
            r matches Ok(v) ==> forall|i: int| 0 <= i < v.len() ==> document_read(#[trigger] v@[i]),
            r matches Ok(v) ==> exists|rows: Seq<Vec<SqlValue>>|
                #[trigger] answered(
                    filter_sql(DOCUMENTS_BASE@, col_if(project_id is Some, "project_id"@) + col_if(document_type is Some, "document_type"@), DOCUMENTS_ORDER@),
                    int_if(project_id) + str_if(document_type),
                    rows,
                ) && document_list_of(rows, v@),
            r is Err ==> r->Err_0 is Sqlite && query_failed(filter_sql(DOCUMENTS_BASE@, col_if(project_id is Some, "project_id"@) + col_if(document_type is Some, "document_type"@), DOCUMENTS_ORDER@),
                    int_if(project_id) + str_if(document_type)),
    {
        let cols = filter_columns("project_id", project_id.is_some(), "document_type", document_type.is_some());
        let sql = filter_statement(DOCUMENTS_BASE, &cols, DOCUMENTS_ORDER);
        let mut params: Vec<SqlValue> = Vec::new();
        match project_id { Some(v) => params.push(SqlValue::Integer(v)), None => {} }
        match document_type { Some(v) => params.push(SqlValue::Text(v.to_owned())), None => {} }
        assert(bound_all(params@) =~= int_if(project_id) + str_if(document_type));
        let rows = self.query_ok_rows(sql.as_str(), params, 12)?;
        let ghost rv = rows@;
        let v = decode_all_documents(rows);
        assert(answered(
            filter_sql(DOCUMENTS_BASE@, col_if(project_id is Some, "project_id"@) + col_if(document_type is Some, "document_type"@), DOCUMENTS_ORDER@),
            int_if(project_id) + str_if(document_type),
            rv,
        ));
        Ok(v)
    }

    /// Sets the given fields of a document (see `document_update_cols`),
    /// logs the update and returns the document.
    pub fn update_document(&mut self, p: &UpdateDocumentParams) -> (r: Result<Document, DbError>)
        ensures
            (r is Ok || r matches Err(DbError::NotFound(_, _))) ==> exists|t: Timestamp, vals: Seq<Bound>|
                document_update_bound(*p, vals) && final(self).log() == old(self).log() + seq![
                #[trigger] update_write("documents"@, document_update_cols(*p), t, vals, p.document_id),
                activity_write("document"@, p.document_id, "update"@, None),
            ],
            r matches Err(DbError::Sqlite(_)) ==> exists|t: Timestamp, vals: Seq<Bound>| document_update_bound(*p, vals) && (
                final(self).log() == old(self).log() + seq![#[trigger] update_write("documents"@, document_update_cols(*p), t, vals, p.document_id)]
                || final(self).log() == old(self).log() + seq![
                    update_write("documents"@, document_update_cols(*p), t, vals, p.document_id),
                    activity_write("document"@, p.document_id, "update"@, None),
                ]),
            r matches Err(DbError::InvalidTimestamp) ==> final(self).log() == old(self).log(),
            r matches Ok(x) ==> document_read(x),
            r matches Err(e) ==> (e is Sqlite || e is InvalidTimestamp
                || e == DbError::NotFound(RecordKind::Document, p.document_id)),
            r matches Ok(x) ==> document_loaded(p.document_id, x),
            r matches Err(DbError::NotFound(_, _)) ==> document_missing(p.document_id),
    {
        let ghost start = self.log();
        let (cols, vals) = document_update_columns(p);
        let ghost vb = bound_all(vals@);
        let ran = run_update(self, "documents", &cols, vals, p.document_id);
        if let Err(e) = ran {
            proof {
                if !(e is InvalidTimestamp) {
                    let t = choose|t: Timestamp| sql_datetime_text(t) is Some
                        && self.log() == start.push(update_write("documents"@, views(cols@), t, vb, p.document_id));
                    assert(self.log() =~= start + seq![update_write("documents"@, document_update_cols(*p), t, vb, p.document_id)]);
                }
            }
            return Err(e);
        }
        let ghost t = choose|t: Timestamp| sql_datetime_text(t) is Some
            && self.log() == start.push(update_write("documents"@, views(cols@), t, vb, p.document_id));
        let logged = self.log_activity("document", p.document_id, "update", None);
        assert(self.log() =~= start + seq![
            update_write("documents"@, document_update_cols(*p), t, vb, p.document_id),
            activity_write("document"@, p.document_id, "update"@, None),
        ]);
        if let Err(e) = logged {
            return Err(e);
        }
        self.get_document_inner(p.document_id)
    }

    /// Deletes a document.
    pub fn delete_document(&mut self, document_id: i64) -> (r: Result<(), DbError>)
        ensures
            r is Ok ==> final(self).log() == old(self).log() + seq![
                activity_write("document"@, document_id, "delete"@, None),
                (DOCUMENT_DELETE@, seq![Bound::Integer(document_id)]),
            ],
            r is Err ==> r->Err_0 is Sqlite,
            r is Err ==> final(self).log() == old(self).log() + seq![activity_write("document"@, document_id, "delete"@, None)]
                || final(self).log() == old(self).log() + seq![
                    activity_write("document"@, document_id, "delete"@, None),
                    (DOCUMENT_DELETE@, seq![Bound::Integer(document_id)]),
                ],
    {
        if let Err(e) = self.log_activity_inner("document", document_id, "delete", None) {
            assert(self.log() =~= old(self).log() + seq![activity_write("document"@, document_id, "delete"@, None)]);
            return Err(e);
        }
        let params = vec![SqlValue::Integer(document_id)];
        assert(bound_all(params@) =~= seq![Bound::Integer(document_id)]);
        let done = self.execute(DOCUMENT_DELETE, params);
        assert(self.log() =~= old(self).log() + seq![
            activity_write("document"@, document_id, "delete"@, None),
            (DOCUMENT_DELETE@, seq![Bound::Integer(document_id)]),
        ]);
        if let Err(e) = done {
            return Err(e);
        }
        Ok(())
    }

    /// Stores a code artifact and logs it.
    pub fn create_code_artifact(&mut self, p: &CreateCodeArtifactParams) -> (r: Result<CodeArtifact, DbError>)
        ensures
            r matches Ok(x) ==> exists|t: Timestamp, id: i64| final(self).log() == old(self).log() + seq![
                #[trigger] code_artifact_insert_write(*p, t),
                #[trigger] activity_write("code_artifact"@, id, "create"@, None),
            ] && code_artifact_loaded(id, x) && inserted_rowid(old(self).log().push(code_artifact_insert_write(*p, t)), id),
            r matches Ok(x) ==> code_artifact_read(x),
            r matches Err(e) ==> (e is Sqlite || e is InvalidTimestamp || e is NotFound),
            r matches Err(DbError::InvalidTimestamp) ==> final(self).log() == old(self).log(),
            r matches Err(e) ==> (e is InvalidTimestamp || exists|t: Timestamp| {
                ||| !(e is NotFound) && final(self).log() == old(self).log() + seq![#[trigger] code_artifact_insert_write(*p, t)]
                ||| exists|id: i64| final(self).log() == old(self).log() + seq![
                        code_artifact_insert_write(*p, t),
                        #[trigger] activity_write("code_artifact"@, id, "create"@, None),
                    ] && inserted_rowid(old(self).log().push(code_artifact_insert_write(*p, t)), id)
                    && (e is NotFound ==> code_artifact_missing(id))
            }),
    {
        let (now, now_v) = now_value()?;
        let now_v2 = match &now_v { SqlValue::Text(t) => SqlValue::Text(t.clone()), _ => SqlValue::Null };
        let tags_json = match json_encode_strings(&p.tags) { Ok(s) => s, Err(e) => { return Err(DbError::Json(e)); } };
        let params = vec![
            SqlValue::Text(Database::default_user_id()),
            opt_int_value(p.project_id),
            SqlValue::Text(p.title.clone()),
            SqlValue::Text(p.description.clone()),
            SqlValue::Text(p.code.clone()),
            SqlValue::Text(p.language.clone()),
            SqlValue::Text(tags_json),
            now_v,
            now_v2,
        ];
        assert(bound_all(params@) =~= code_artifact_insert_write(*p, now).1);
        let columns: Vec<&'static str> = vec![
            "user_id", "project_id", "title", "description", "code", "language", "tags",
            "created_at", "updated_at",
        ];
        assert(views(columns@) =~= code_artifact_insert_columns());
        let insert = insert_statement("INSERT", "code_artifacts", &columns);
        if let Err(e) = self.execute(insert.as_str(), params) {
            assert(self.log() =~= old(self).log() + seq![code_artifact_insert_write(*p, now)]);
            return Err(e);
        }
        let id = self.last_insert_rowid();
        let logged = self.log_activity("code_artifact", id, "create", None);
        assert(self.log() =~= old(self).log() + seq![
            code_artifact_insert_write(*p, now),
            activity_write("code_artifact"@, id, "create"@, None),
        ]);
        if let Err(e) = logged {
            return Err(e);
        }
        self.get_code_artifact_inner(id)
    }

    /// A code artifact by id.
    pub fn get_code_artifact(&self, id: i64) -> (r: Result<CodeArtifact, DbError>)
        ensures
            r matches Ok(x) ==> code_artifact_read(x),
            r matches Err(e) ==> e == DbError::NotFound(RecordKind::CodeArtifact, id),
            r matches Ok(x) ==> code_artifact_loaded(id, x),
            r matches Err(DbError::NotFound(_, _)) ==> code_artifact_missing(id),
    {
        self.get_code_artifact_inner(id)
    }

    fn get_code_artifact_inner(&self, id: i64) -> (r: Result<CodeArtifact, DbError>)
        ensures
            r matches Ok(x) ==> code_artifact_read(x),
            r matches Ok(x) ==> code_artifact_loaded(id, x),
            r is Err ==> code_artifact_missing(id),
            r matches Err(e) ==> e == DbError::NotFound(RecordKind::CodeArtifact, id),
    {
        let params: Vec<SqlValue> = vec![SqlValue::Integer(id)];
        assert(bound_all(params@) =~= seq![Bound::Integer(id)]);
        let row = self.query_first(CODE_ARTIFACT_BY_ID, params, 10);
        let ghost first = row;
        assert(first_answer(CODE_ARTIFACT_BY_ID@, seq![Bound::Integer(id)], first));
        match row {
            Some(r) => {
                let ghost read = r@;
                match decode_code_artifact(r) {
                    Some(x) => {
                        assert(code_artifact_from_row(read, x));
                        Ok(x)
                    },
                    None => Err(DbError::NotFound(RecordKind::CodeArtifact, id)),
                }
            },
            None => Err(DbError::NotFound(RecordKind::CodeArtifact, id)),
        }
    }

    /// The code artifacts, most recently updated first, of the given project
    /// and language when those are given.
    pub fn list_code_artifacts(&self, project_id: Option<i64>, language: Option<&str>) -> (r: Result<Vec<CodeArtifact>, DbError>)
        ensures
            r matches Ok(v) ==> forall|i: int| 0 <= i < v.len() ==> code_artifact_read(#[trigger] v@[i]),
            r matches Ok(v) ==> exists|rows: Seq<Vec<SqlValue>>|
                #[trigger] answered(
                    filter_sql(CODE_ARTIFACTS_BASE@, col_if(project_id is Some, "project_id"@) + col_if(language is Some, "language"@), CODE_ARTIFACTS_ORDER@),
                    int_if(project_id) + str_if(language),
                    rows,
                ) && code_artifact_list_of(rows, v@),
            r is Err ==> r->Err_0 is Sqlite && query_failed(filter_sql(CODE_ARTIFACTS_BASE@, col_if(project_id is Some, "project_id"@) + col_if(language is Some, "language"@), CODE_ARTIFACTS_ORDER@),
                    int_if(project_id) + str_if(language)),
    {
        let cols = filter_columns("project_id", project_id.is_some(), "language", language.is_some());
        let sql = filter_statement(CODE_ARTIFACTS_BASE, &cols, CODE_ARTIFACTS_ORDER);
        let mut params: Vec<SqlValue> = Vec::new();
        match project_id { Some(v) => params.push(SqlValue::Integer(v)), None => {} }
        match language { Some(v) => params.push(SqlValue::Text(v.to_owned())), None => {} }
        assert(bound_all(params@) =~= int_if(project_id) + str_if(language));
        let rows = self.query_ok_rows(sql.as_str(), params, 10)?;
        let ghost rv = rows@;
        let v = decode_all_code_artifacts(rows);
        assert(answered(
            filter_sql(CODE_ARTIFACTS_BASE@, col_if(project_id is Some, "project_id"@) + col_if(language is Some, "language"@), CODE_ARTIFACTS_ORDER@),
            int_if(project_id) + str_if(language),
            rv,
        ));
        Ok(v)
    }

    /// Sets the given fields of a code artifact (see
    /// `code_artifact_update_cols`), logs the update and returns it.
    pub fn update_code_artifact(&mut self, p: &UpdateCodeArtifactParams) -> (r: Result<CodeArtifact, DbError>)
        ensures
            (r is Ok || r matches Err(DbError::NotFound(_, _))) ==> exists|t: Timestamp, vals: Seq<Bound>|
                code_artifact_update_bound(*p, vals) && final(self).log() == old(self).log() + seq![
                #[trigger] update_write("code_artifacts"@, code_artifact_update_cols(*p), t, vals, p.code_artifact_id),
                activity_write("code_artifact"@, p.code_artifact_id, "update"@, None),
            ],
            r matches Err(DbError::Sqlite(_)) ==> exists|t: Timestamp, vals: Seq<Bound>| code_artifact_update_bound(*p, vals) && (
                final(self).log() == old(self).log() + seq![#[trigger] update_write("code_artifacts"@, code_artifact_update_cols(*p), t, vals, p.code_artifact_id)]
                || final(self).log() == old(self).log() + seq![
                    update_write("code_artifacts"@, code_artifact_update_cols(*p), t, vals, p.code_artifact_id),
                    activity_write("code_artifact"@, p.code_artifact_id, "update"@, None),
                ]),
            r matches Err(DbError::InvalidTimestamp) ==> final(self).log() == old(self).log(),
            r matches Ok(x) ==> code_artifact_read(x),
            r matches Err(e) ==> (e is Sqlite || e is InvalidTimestamp
                || e == DbError::NotFound(RecordKind::CodeArtifact, p.code_artifact_id)),
            r matches Ok(x) ==> code_artifact_loaded(p.code_artifact_id, x),
            r matches Err(DbError::NotFound(_, _)) ==> code_artifact_missing(p.code_artifact_id),
    {
        let ghost start = self.log();
        let (cols, vals) = code_artifact_update_columns(p);
        let ghost vb = bound_all(vals@);
        let ran = run_update(self, "code_artifacts", &cols, vals, p.code_artifact_id);
        if let Err(e) = ran {
            proof {
                if !(e is InvalidTimestamp) {
                    let t = choose|t: Timestamp| sql_datetime_text(t) is Some
                        && self.log() == start.push(update_write("code_artifacts"@, views(cols@), t, vb, p.code_artifact_id));
                    assert(self.log() =~= start + seq![update_write("code_artifacts"@, code_artifact_update_cols(*p), t, vb, p.code_artifact_id)]);
                }
            }
            return Err(e);
        }
        let ghost t = choose|t: Timestamp| sql_datetime_text(t) is Some
            && self.log() == start.push(update_write("code_artifacts"@, views(cols@), t, vb, p.code_artifact_id));
        let logged = self.log_activity("code_artifact", p.code_artifact_id, "update", None);
        assert(self.log() =~= start + seq![
            update_write("code_artifacts"@, code_artifact_update_cols(*p), t, vb, p.code_artifact_id),
            activity_write("code_artifact"@, p.code_artifact_id, "update"@, None),
        ]);
        if let Err(e) = logged {
            return Err(e);
        }
        self.get_code_artifact_inner(p.code_artifact_id)
    }

    /// Deletes a code artifact.
    pub fn delete_code_artifact(&mut self, id: i64) -> (r: Result<(), DbError>)
        ensures
            r is Ok ==> final(self).log() == old(self).log() + seq![
                activity_write("code_artifact"@, id, "delete"@, None),
                (CODE_ARTIFACT_DELETE@, seq![Bound::Integer(id)]),
            ],
            r is Err ==> r->Err_0 is Sqlite,
            r is Err ==> final(self).log() == old(self).log() + seq![activity_write("code_artifact"@, id, "delete"@, None)]
                || final(self).log() == old(self).log() + seq![
                    activity_write("code_artifact"@, id, "delete"@, None),
                    (CODE_ARTIFACT_DELETE@, seq![Bound::Integer(id)]),
                ],
    {
        if let Err(e) = self.log_activity_inner("code_artifact", id, "delete", None) {
            assert(self.log() =~= old(self).log() + seq![activity_write("code_artifact"@, id, "delete"@, None)]);
            return Err(e);
        }
        let params = vec![SqlValue::Integer(id)];
        assert(bound_all(params@) =~= seq![Bound::Integer(id)]);
        let done = self.execute(CODE_ARTIFACT_DELETE, params);
        assert(self.log() =~= old(self).log() + seq![
            activity_write("code_artifact"@, id, "delete"@, None),
            (CODE_ARTIFACT_DELETE@, seq![Bound::Integer(id)]),
        ]);
        if let Err(e) = done {
            return Err(e);
        }
        Ok(())
    }
}

} // verus!
