//! The catalog of tools the server offers, by category, as the
//! `list_tools` tool presents it.

use vstd::prelude::*;

verus! {

/// A tool: its name and a one-line description.
pub struct ToolEntry {
    pub name: String,
    pub description: String,
}

/// A category of tools and the tools in it, in order.
pub struct ToolCategory {
    pub name: String,
    pub tools: Vec<ToolEntry>,
}

pub open spec fn entry_view(t: ToolEntry) -> (Seq<char>, Seq<char>) {
    (t.name@, t.description@)
}

pub open spec fn category_view(c: ToolCategory) -> (Seq<char>, Seq<(Seq<char>, Seq<char>)>) {
    (c.name@, c.tools@.map_values(|t: ToolEntry| entry_view(t)))
}

pub open spec fn catalog_view(cs: Seq<ToolCategory>) -> Seq<(Seq<char>, Seq<(Seq<char>, Seq<char>)>)> {
    cs.map_values(|c: ToolCategory| category_view(c))
}

fn entry(name: &str, description: &str) -> (r: ToolEntry)
    ensures
        entry_view(r) == (name@, description@),
{
    ToolEntry { name: name.to_owned(), description: description.to_owned() }
}

/// The tools of the `memory` category.
pub open spec fn memory_tools_spec() -> Seq<(Seq<char>, Seq<char>)> {
    seq![
        ("create_memory"@, "Create a new atomic memory with auto-linking"@),
        ("query_memory"@, "Search memories using natural language (FTS5 + BM25)"@),
        ("get_memory"@, "Get a specific memory by ID with all associations"@),
        ("update_memory"@, "Update memory fields (PATCH)"@),
        ("delete_memory"@, "Permanently delete a memory"@),
        ("link_memories"@, "Create bidirectional links between memories"@),
        ("unlink_memories"@, "Remove links between memories"@),
        ("mark_obsolete"@, "Soft-delete: mark memory as outdated"@),
        ("get_recent"@, "Get recently updated memories"@),
        ("create_version"@, "Create a versioned evolution of a memory"@),
        ("get_version_chain"@, "Get full version history for a memory"@),
        ("forget_memory"@, "Soft-forget: mark memory as no longer needed"@),
        ("search_similar"@, "Find textually similar memories"@),
    ]
}

fn memory_tools() -> (r: Vec<ToolEntry>)
    ensures
        r@.map_values(|t: ToolEntry| entry_view(t)) == memory_tools_spec(),
{
    let mut v: Vec<ToolEntry> = Vec::new();
    v.push(entry("create_memory", "Create a new atomic memory with auto-linking"));
    v.push(entry("query_memory", "Search memories using natural language (FTS5 + BM25)"));
    v.push(entry("get_memory", "Get a specific memory by ID with all associations"));
    v.push(entry("update_memory", "Update memory fields (PATCH)"));
    v.push(entry("delete_memory", "Permanently delete a memory"));
    v.push(entry("link_memories", "Create bidirectional links between memories"));
    v.push(entry("unlink_memories", "Remove links between memories"));
    v.push(entry("mark_obsolete", "Soft-delete: mark memory as outdated"));
    v.push(entry("get_recent", "Get recently updated memories"));
    v.push(entry("create_version", "Create a versioned evolution of a memory"));
    v.push(entry("get_version_chain", "Get full version history for a memory"));
    v.push(entry("forget_memory", "Soft-forget: mark memory as no longer needed"));
    v.push(entry("search_similar", "Find textually similar memories"));
    assert(v@.map_values(|t: ToolEntry| entry_view(t)) =~= memory_tools_spec());
    v
}

/// The tools of the `entity` category.
pub open spec fn entity_tools_spec() -> Seq<(Seq<char>, Seq<char>)> {
    seq![
        ("create_entity"@, "Create person/org/device/concept"@),
        ("get_entity"@, "Get entity by ID"@),
        ("list_entities"@, "List entities with filters"@),
        ("search_entities"@, "Search entities by name/aliases"@),
        ("update_entity"@, "Update entity fields"@),
        ("delete_entity"@, "Delete entity and associations"@),
        ("link_entity_memory"@, "Link entity to memory"@),
        ("unlink_entity_memory"@, "Unlink entity from memory"@),
        ("link_entity_project"@, "Link entity to project"@),
        ("unlink_entity_project"@, "Unlink entity from project"@),
        ("get_entity_memories"@, "Get all memories for entity"@),
        ("create_relationship"@, "Create typed edge between entities"@),
        ("get_relationships"@, "Get entity relationships"@),
        ("update_relationship"@, "Update relationship"@),
        ("delete_relationship"@, "Delete relationship"@),
    ]
}

fn entity_tools() -> (r: Vec<ToolEntry>)
    ensures
        r@.map_values(|t: ToolEntry| entry_view(t)) == entity_tools_spec(),
{
    let mut v: Vec<ToolEntry> = Vec::new();
    v.push(entry("create_entity", "Create person/org/device/concept"));
    v.push(entry("get_entity", "Get entity by ID"));
    v.push(entry("list_entities", "List entities with filters"));
    v.push(entry("search_entities", "Search entities by name/aliases"));
    v.push(entry("update_entity", "Update entity fields"));
    v.push(entry("delete_entity", "Delete entity and associations"));
    v.push(entry("link_entity_memory", "Link entity to memory"));
    v.push(entry("unlink_entity_memory", "Unlink entity from memory"));
    v.push(entry("link_entity_project", "Link entity to project"));
    v.push(entry("unlink_entity_project", "Unlink entity from project"));
    v.push(entry("get_entity_memories", "Get all memories for entity"));
    v.push(entry("create_relationship", "Create typed edge between entities"));
    v.push(entry("get_relationships", "Get entity relationships"));
    v.push(entry("update_relationship", "Update relationship"));
    v.push(entry("delete_relationship", "Delete relationship"));
    assert(v@.map_values(|t: ToolEntry| entry_view(t)) =~= entity_tools_spec());
    v
}

/// The tools of the `project` category.
pub open spec fn project_tools_spec() -> Seq<(Seq<char>, Seq<char>)> {
    seq![
        ("create_project"@, "Create project container"@),
        ("get_project"@, "Get project by ID"@),
        ("list_projects"@, "List projects with filters"@),
        ("update_project"@, "Update project fields"@),
        ("delete_project"@, "Delete project"@),
    ]
}

fn project_tools() -> (r: Vec<ToolEntry>)
    ensures
        r@.map_values(|t: ToolEntry| entry_view(t)) == project_tools_spec(),
{
    let mut v: Vec<ToolEntry> = Vec::new();
    v.push(entry("create_project", "Create project container"));
    v.push(entry("get_project", "Get project by ID"));
    v.push(entry("list_projects", "List projects with filters"));
    v.push(entry("update_project", "Update project fields"));
    v.push(entry("delete_project", "Delete project"));
    assert(v@.map_values(|t: ToolEntry| entry_view(t)) =~= project_tools_spec());
    v
}

/// The tools of the `document` category.
pub open spec fn document_tools_spec() -> Seq<(Seq<char>, Seq<char>)> {
    seq![
        ("create_document"@, "Create long-form document"@),
        ("get_document"@, "Get document by ID"@),
        ("list_documents"@, "List documents with filters"@),
        ("update_document"@, "Update document fields"@),
        ("delete_document"@, "Delete document"@),
    ]
}

fn document_tools() -> (r: Vec<ToolEntry>)
    ensures
        r@.map_values(|t: ToolEntry| entry_view(t)) == document_tools_spec(),
{
    let mut v: Vec<ToolEntry> = Vec::new();
    v.push(entry("create_document", "Create long-form document"));
    v.push(entry("get_document", "Get document by ID"));
    v.push(entry("list_documents", "List documents with filters"));
    v.push(entry("update_document", "Update document fields"));
    v.push(entry("delete_document", "Delete document"));
    assert(v@.map_values(|t: ToolEntry| entry_view(t)) =~= document_tools_spec());
    v
}

/// The tools of the `code_artifact` category.
pub open spec fn code_artifact_tools_spec() -> Seq<(Seq<char>, Seq<char>)> {
    seq![
        ("create_code_artifact"@, "Create reusable code snippet"@),
        ("get_code_artifact"@, "Get code artifact by ID"@),
        ("list_code_artifacts"@, "List code artifacts with filters"@),
        ("update_code_artifact"@, "Update code artifact fields"@),
        ("delete_code_artifact"@, "Delete code artifact"@),
    ]
}

fn code_artifact_tools() -> (r: Vec<ToolEntry>)
    ensures
        r@.map_values(|t: ToolEntry| entry_view(t)) == code_artifact_tools_spec(),
{
    let mut v: Vec<ToolEntry> = Vec::new();
    v.push(entry("create_code_artifact", "Create reusable code snippet"));
    v.push(entry("get_code_artifact", "Get code artifact by ID"));
    v.push(entry("list_code_artifacts", "List code artifacts with filters"));
    v.push(entry("update_code_artifact", "Update code artifact fields"));
    v.push(entry("delete_code_artifact", "Delete code artifact"));
    assert(v@.map_values(|t: ToolEntry| entry_view(t)) =~= code_artifact_tools_spec());
    v
}

/// The tools of the `user` category.
pub open spec fn user_tools_spec() -> Seq<(Seq<char>, Seq<char>)> {
    seq![
        ("get_user"@, "Get current user info"@),
        ("update_user_notes"@, "Update user notes"@),
    ]
}

fn user_tools() -> (r: Vec<ToolEntry>)
    ensures
        r@.map_values(|t: ToolEntry| entry_view(t)) == user_tools_spec(),
{
    let mut v: Vec<ToolEntry> = Vec::new();
    v.push(entry("get_user", "Get current user info"));
    v.push(entry("update_user_notes", "Update user notes"));
    assert(v@.map_values(|t: ToolEntry| entry_view(t)) =~= user_tools_spec());
    v
}

/// The tools of the `profile` category.
pub open spec fn profile_tools_spec() -> Seq<(Seq<char>, Seq<char>)> {
    seq![
        ("get_profile"@, "Get auto-generated user profile"@),
        ("refresh_profile"@, "Regenerate profile from memories"@),
    ]
}

fn profile_tools() -> (r: Vec<ToolEntry>)
    ensures
        r@.map_values(|t: ToolEntry| entry_view(t)) == profile_tools_spec(),
{
    let mut v: Vec<ToolEntry> = Vec::new();
    v.push(entry("get_profile", "Get auto-generated user profile"));
    v.push(entry("refresh_profile", "Regenerate profile from memories"));
    assert(v@.map_values(|t: ToolEntry| entry_view(t)) =~= profile_tools_spec());
    v
}

/// The tools of the `meta` category: those about the tools themselves.
pub open spec fn meta_tools_spec() -> Seq<(Seq<char>, Seq<char>)> {
    seq![
        ("list_tools"@, "List all tools by category"@),
        ("tool_info"@, "Detailed tool info + schema"@),
    ]
}

fn meta_tools() -> (r: Vec<ToolEntry>)
    ensures
        r@.map_values(|t: ToolEntry| entry_view(t)) == meta_tools_spec(),
{
    let mut v: Vec<ToolEntry> = Vec::new();
    v.push(entry("list_tools", "List all tools by category"));
    v.push(entry("tool_info", "Detailed tool info + schema"));
    assert(v@.map_values(|t: ToolEntry| entry_view(t)) =~= meta_tools_spec());
    v
}

/// The whole catalog: each category name with its tools.
pub open spec fn tool_catalog_spec() -> Seq<(Seq<char>, Seq<(Seq<char>, Seq<char>)>)> {
    seq![
        ("memory"@, memory_tools_spec()),
        ("entity"@, entity_tools_spec()),
        ("project"@, project_tools_spec()),
        ("document"@, document_tools_spec()),
        ("code_artifact"@, code_artifact_tools_spec()),
        ("user"@, user_tools_spec()),
        ("profile"@, profile_tools_spec()),
        ("meta"@, meta_tools_spec()),
    ]
}

/// The catalog of tools, by category (see `tool_catalog_spec`).
pub fn tool_catalog() -> (r: Vec<ToolCategory>)
    ensures
        catalog_view(r@) == tool_catalog_spec(),
{
    let mut v: Vec<ToolCategory> = Vec::new();
    v.push(ToolCategory { name: "memory".to_owned(), tools: memory_tools() });
    v.push(ToolCategory { name: "entity".to_owned(), tools: entity_tools() });
    v.push(ToolCategory { name: "project".to_owned(), tools: project_tools() });
    v.push(ToolCategory { name: "document".to_owned(), tools: document_tools() });
    v.push(ToolCategory { name: "code_artifact".to_owned(), tools: code_artifact_tools() });
    v.push(ToolCategory { name: "user".to_owned(), tools: user_tools() });
    v.push(ToolCategory { name: "profile".to_owned(), tools: profile_tools() });
    v.push(ToolCategory { name: "meta".to_owned(), tools: meta_tools() });
    assert(catalog_view(v@) =~= tool_catalog_spec());
    v
}

} // verus!
