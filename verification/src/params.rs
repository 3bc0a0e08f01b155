//! The parameters of the store's operations, one struct per tool.

use vstd::prelude::*;
use crate::sql::Number;
use crate::text::push_char;

verus! {

/// Kind of a memory when none is given.
pub fn default_memory_type() -> (r: String)
    ensures
        r@ == seq!['f', 'a', 'c', 't'],
{
    let mut s = String::new();
    push_char(&mut s, 'f');
    push_char(&mut s, 'a');
    push_char(&mut s, 'c');
    push_char(&mut s, 't');
    s
}

/// Number of results when none is given.
pub fn default_k() -> (r: i32)
    ensures
        r == 10,
{
    10
}

pub fn default_true() -> (r: bool)
    ensures
        r,
{
    true
}

/// Linked memories per primary result when none is given.
pub fn default_max_links() -> (r: i32)
    ensures
        r == 5,
{
    5
}

/// Token budget of a search when none is given.
pub fn default_token_budget() -> (r: i32)
    ensures
        r == 8000,
{
    8000
}

/// Number of similar memories when none is given.
pub fn default_similar_k() -> (r: i32)
    ensures
        r == 5,
{
    5
}

/// Direction of relationships when none is given.
pub fn default_direction() -> (r: String)
    ensures
        r@ == seq!['b', 'o', 't', 'h'],
{
    let mut s = String::new();
    push_char(&mut s, 'b');
    push_char(&mut s, 'o');
    push_char(&mut s, 't');
    push_char(&mut s, 'h');
    s
}

#[derive(Debug)]
pub struct CreateMemoryParams {
    /// Short, searchable title (max 200 chars)
    pub title: String,
    /// Single concept content (max 2000 chars)
    pub content: String,
    /// WHY this matters (max 500 chars)
    pub context: String,
    /// Keywords for search clustering (max 10)
    pub keywords: Vec<String>,
    /// Tags for categorization (max 10)
    pub tags: Vec<String>,
    /// Importance score 1-10 (higher = more important)
    pub importance: i32,
    /// Project IDs to associate with
    pub project_ids: Vec<i64>,
    /// Entity IDs to associate with
    pub entity_ids: Vec<i64>,
    /// Document IDs to associate with
    pub document_ids: Vec<i64>,
    /// Code artifact IDs to associate with
    pub code_artifact_ids: Vec<i64>,
    /// Source repository (e.g., "owner/repo")
    pub source_repo: Option<String>,
    /// Source file paths
    pub source_files: Option<Vec<String>>,
    /// Source URL
    pub source_url: Option<String>,
    /// Confidence score 0.0-1.0
    pub confidence: Option<Number>,
    /// Agent that created this memory
    pub encoding_agent: Option<String>,
    /// Memory type: fact, preference, or episode
    pub memory_type: String,
    /// Container tag for scoping
    pub container_tag: Option<String>,
    /// Auto-forget date (ISO 8601)
    pub forget_after: Option<String>,
}

#[derive(Debug)]
pub struct QueryMemoryParams {
    /// Natural language search query
    pub query: String,
    /// Why you're searching (improves ranking context)
    pub query_context: Option<String>,
    /// Maximum number of results (default 10)
    pub k: i32,
    /// Include linked memories in results
    pub include_links: bool,
    /// Maximum linked memories per primary result
    pub max_links_per_primary: i32,
    /// Filter by project IDs
    pub project_ids: Vec<i64>,
    /// Filter by tags
    pub tags: Vec<String>,
    /// Minimum importance score
    pub min_importance: Option<i32>,
    /// Token budget for results (default 8000)
    pub token_budget: i32,
    /// Filter by container tag
    pub container_tag: Option<String>,
}

#[derive(Debug)]
pub struct GetMemoryParams {
    /// Memory ID to retrieve
    pub memory_id: i64,
}

#[derive(Debug)]
pub struct UpdateMemoryParams {
    /// Memory ID to update
    pub memory_id: i64,
    /// New title
    pub title: Option<String>,
    /// New content
    pub content: Option<String>,
    /// New context
    pub context: Option<String>,
    /// New keywords
    pub keywords: Option<Vec<String>>,
    /// New tags
    pub tags: Option<Vec<String>>,
    /// New importance score
    pub importance: Option<i32>,
    /// New source repo
    pub source_repo: Option<String>,
    /// New source files
    pub source_files: Option<Vec<String>>,
    /// New source URL
    pub source_url: Option<String>,
    /// New confidence score
    pub confidence: Option<Number>,
    /// New container tag
    pub container_tag: Option<String>,
}

#[derive(Debug)]
pub struct DeleteMemoryParams {
    /// Memory ID to delete
    pub memory_id: i64,
}

#[derive(Debug)]
pub struct LinkMemoriesParams {
    /// Source memory ID
    pub memory_id: i64,
    /// Target memory IDs to link
    pub related_ids: Vec<i64>,
}

#[derive(Debug)]
pub struct UnlinkMemoriesParams {
    /// Source memory ID
    pub memory_id: i64,
    /// Target memory IDs to unlink
    pub related_ids: Vec<i64>,
}

#[derive(Debug)]
pub struct MarkObsoleteParams {
    /// Memory ID to mark obsolete
    pub memory_id: i64,
    /// Reason for obsolescence
    pub reason: String,
    /// ID of memory that supersedes this one
    pub superseded_by: Option<i64>,
}

#[derive(Debug)]
pub struct GetRecentParams {
    /// Maximum number of results (default 10)
    pub limit: i32,
    /// Filter by project IDs
    pub project_ids: Vec<i64>,
    /// Filter by container tag
    pub container_tag: Option<String>,
}

#[derive(Debug)]
pub struct CreateVersionParams {
    /// Parent memory ID to create a version from
    pub parent_memory_id: i64,
    /// Relationship type: updates, extends, or derives
    pub relationship_type: String,
    /// New title
    pub title: String,
    /// New content
    pub content: String,
    /// New context
    pub context: String,
    /// New keywords
    pub keywords: Vec<String>,
    /// New tags
    pub tags: Vec<String>,
    /// New importance score
    pub importance: i32,
    /// Memory type
    pub memory_type: String,
}

#[derive(Debug)]
pub struct GetVersionChainParams {
    /// Memory ID to get version chain for
    pub memory_id: i64,
}

#[derive(Debug)]
pub struct ForgetMemoryParams {
    /// Memory ID to forget
    pub memory_id: i64,
    /// Reason for forgetting
    pub reason: Option<String>,
}

#[derive(Debug)]
pub struct SearchSimilarParams {
    /// Memory ID to find similar memories for
    pub memory_id: i64,
    /// Maximum number of results
    pub k: i32,
}

#[derive(Debug)]
pub struct CreateEntityParams {
    /// Entity name
    pub name: String,
    /// Entity type (person, organization, device, concept, etc.)
    pub entity_type: String,
    /// Custom type label
    pub custom_type: Option<String>,
    /// Notes about this entity
    pub notes: Option<String>,
    /// Tags for categorization
    pub tags: Vec<String>,
    /// Also-known-as aliases
    pub aka: Vec<String>,
}

#[derive(Debug)]
pub struct GetEntityParams {
    /// Entity ID
    pub entity_id: i64,
}

#[derive(Debug)]
pub struct ListEntitiesParams {
    /// Filter by project IDs
    pub project_ids: Vec<i64>,
    /// Filter by entity type
    pub entity_type: Option<String>,
}

#[derive(Debug)]
pub struct SearchEntitiesParams {
    /// Search query
    pub query: String,
}

#[derive(Debug)]
pub struct UpdateEntityParams {
    /// Entity ID
    pub entity_id: i64,
    /// New name
    pub name: Option<String>,
    /// New entity type
    pub entity_type: Option<String>,
    /// New custom type
    pub custom_type: Option<String>,
    /// New notes
    pub notes: Option<String>,
    /// New tags
    pub tags: Option<Vec<String>>,
    /// New aliases
    pub aka: Option<Vec<String>>,
}

#[derive(Debug)]
pub struct DeleteEntityParams {
    /// Entity ID
    pub entity_id: i64,
}

#[derive(Debug)]
pub struct LinkEntityMemoryParams {
    /// Entity ID
    pub entity_id: i64,
    /// Memory ID
    pub memory_id: i64,
}

#[derive(Debug)]
pub struct LinkEntityProjectParams {
    /// Entity ID
    pub entity_id: i64,
    /// Project ID
    pub project_id: i64,
}

#[derive(Debug)]
pub struct GetEntityMemoriesParams {
    /// Entity ID
    pub entity_id: i64,
}

#[derive(Debug)]
pub struct CreateRelationshipParams {
    /// Source entity ID
    pub source_entity_id: i64,
    /// Target entity ID
    pub target_entity_id: i64,
    /// Relationship type (e.g., works_for, owns, manages)
    pub relationship_type: String,
    /// Relationship strength 0.0-1.0
    pub strength: Option<Number>,
    /// Confidence score 0.0-1.0
    pub confidence: Option<Number>,
    /// Additional metadata (JSON text)
    pub metadata: Option<String>,
}

#[derive(Debug)]
pub struct GetRelationshipsParams {
    /// Entity ID
    pub entity_id: i64,
    /// Direction: outgoing, incoming, or both
    pub direction: String,
}

#[derive(Debug)]
pub struct UpdateRelationshipParams {
    /// Relationship ID
    pub relationship_id: i64,
    /// New relationship type
    pub relationship_type: Option<String>,
    /// New strength
    pub strength: Option<Number>,
    /// New confidence
    pub confidence: Option<Number>,
    /// New metadata (JSON text)
    pub metadata: Option<String>,
}

#[derive(Debug)]
pub struct DeleteRelationshipParams {
    /// Relationship ID
    pub relationship_id: i64,
}

#[derive(Debug)]
pub struct CreateProjectParams {
    /// Project name
    pub name: String,
    /// Project description
    pub description: String,
    /// Project type (e.g., development, research)
    pub project_type: Option<String>,
    /// Repository name (e.g., "owner/repo")
    pub repo_name: Option<String>,
    /// Notes
    pub notes: Option<String>,
}

#[derive(Debug)]
pub struct GetProjectParams {
    /// Project ID
    pub project_id: i64,
}

#[derive(Debug)]
pub struct ListProjectsParams {
    /// Filter by repo name
    pub repo_name: Option<String>,
    /// Filter by status
    pub status: Option<String>,
}

#[derive(Debug)]
pub struct UpdateProjectParams {
    /// Project ID
    pub project_id: i64,
    /// New name
    pub name: Option<String>,
    /// New description
    pub description: Option<String>,
    /// New project type
    pub project_type: Option<String>,
    /// New status
    pub status: Option<String>,
    /// New repo name
    pub repo_name: Option<String>,
    /// New notes
    pub notes: Option<String>,
}

#[derive(Debug)]
pub struct DeleteProjectParams {
    /// Project ID
    pub project_id: i64,
}

#[derive(Debug)]
pub struct CreateDocumentParams {
    /// Document title
    pub title: String,
    /// Document description
    pub description: String,
    /// Document content
    pub content: String,
    /// Document type
    pub document_type: Option<String>,
    /// Filename
    pub filename: Option<String>,
    /// Tags
    pub tags: Vec<String>,
    /// Project ID
    pub project_id: Option<i64>,
}

#[derive(Debug)]
pub struct GetDocumentParams {
    /// Document ID
    pub document_id: i64,
}

#[derive(Debug)]
pub struct ListDocumentsParams {
    /// Filter by project ID
    pub project_id: Option<i64>,
    /// Filter by document type
    pub document_type: Option<String>,
}

#[derive(Debug)]
pub struct UpdateDocumentParams {
    /// Document ID
    pub document_id: i64,
    /// New title
    pub title: Option<String>,
    /// New description
    pub description: Option<String>,
    /// New content
    pub content: Option<String>,
    /// New document type
    pub document_type: Option<String>,
    /// New filename
    pub filename: Option<String>,
    /// New tags
    pub tags: Option<Vec<String>>,
}

#[derive(Debug)]
pub struct DeleteDocumentParams {
    /// Document ID
    pub document_id: i64,
}

#[derive(Debug)]
pub struct CreateCodeArtifactParams {
    /// Artifact title
    pub title: String,
    /// Artifact description
    pub description: String,
    /// The code
    pub code: String,
    /// Programming language
    pub language: String,
    /// Tags
    pub tags: Vec<String>,
    /// Project ID
    pub project_id: Option<i64>,
}

#[derive(Debug)]
pub struct GetCodeArtifactParams {
    /// Code artifact ID
    pub code_artifact_id: i64,
}

#[derive(Debug)]
pub struct ListCodeArtifactsParams {
    /// Filter by project ID
    pub project_id: Option<i64>,
    /// Filter by language
    pub language: Option<String>,
}

#[derive(Debug)]
pub struct UpdateCodeArtifactParams {
    /// Code artifact ID
    pub code_artifact_id: i64,
    /// New title
    pub title: Option<String>,
    /// New description
    pub description: Option<String>,
    /// New code
    pub code: Option<String>,
    /// New language
    pub language: Option<String>,
    /// New tags
    pub tags: Option<Vec<String>>,
}

#[derive(Debug)]
pub struct DeleteCodeArtifactParams {
    /// Code artifact ID
    pub code_artifact_id: i64,
}

#[derive(Debug)]
pub struct UpdateUserNotesParams {
    /// New notes content
    pub notes: String,
}

#[derive(Debug)]
pub struct ToolInfoParams {
    /// Tool name to get info about
    pub tool_name: String,
}

} // verus!
