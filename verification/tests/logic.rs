use std::collections::HashSet;
use sabmemory::dashboard::{dashboard_search_query, node_id};
use sabmemory::entity::{direction_of, entity_search_query, keep_in_projects, Direction};
use sabmemory::memory::{parse_forget_after, similarity_source};
use sabmemory::params::{
    default_direction, default_k, default_max_links, default_memory_type, default_similar_k,
    default_token_budget, default_true, QueryMemoryParams,
};
use sabmemory::profile::profile_fact;
use sabmemory::records::{Entity, Memory, MemoryWithLinks};
use sabmemory::search::{
    check_other_filters, count_tokens, expand_links, reversed, select_primary, shares_i64, shares_string,
};
use sabmemory::sql::Timestamp;
use sabmemory::statements::{assoc_statement, filter_statement, update_statement};
use sabmemory::text::{build_fts_query, decimal, estimate_tokens, is_whitespace, split_words, truncate_str};

fn ts(secs: i64) -> Timestamp {
    Timestamp { secs, nanos: 0 }
}

fn memory(id: i64, title: &str, content: &str, context: &str) -> Memory {
    Memory {
        id,
        user_id: "default".to_string(),
        title: title.to_string(),
        content: content.to_string(),
        context: context.to_string(),
        keywords: vec![],
        tags: vec![],
        importance: 7,
        is_obsolete: false,
        obsolete_reason: None,
        superseded_by: None,
        obsoleted_at: None,
        source_repo: None,
        source_files: None,
        source_url: None,
        confidence: None,
        encoding_agent: None,
        encoding_version: None,
        version: 1,
        parent_memory_id: None,
        is_latest: true,
        relationship_type: None,
        forget_after: None,
        is_forgotten: false,
        forgotten_at: None,
        memory_type: "fact".to_string(),
        container_tag: None,
        created_at: ts(0),
        updated_at: ts(0),
    }
}

fn with_links(m: Memory, links: Vec<i64>) -> MemoryWithLinks {
    MemoryWithLinks {
        memory: m,
        linked_memory_ids: links,
        project_ids: vec![],
        entity_ids: vec![],
        document_ids: vec![],
        code_artifact_ids: vec![],
    }
}

fn query(q: &str) -> QueryMemoryParams {
    QueryMemoryParams {
        query: q.to_string(),
        query_context: None,
        k: 10,
        include_links: true,
        max_links_per_primary: 5,
        project_ids: vec![],
        tags: vec![],
        min_importance: None,
        token_budget: 8000,
        container_tag: None,
    }
}

// ───────────── text ─────────────

#[test]
fn estimate_tokens_is_a_quarter_of_the_bytes() {
    assert_eq!(estimate_tokens(""), 0);
    assert_eq!(estimate_tokens("abc"), 0);
    assert_eq!(estimate_tokens("abcd"), 1);
    assert_eq!(estimate_tokens("abcdefghi"), 2);
    // "é" is two bytes in UTF-8
    assert_eq!(estimate_tokens("éé"), 1);
}

#[test]
fn truncate_keeps_short_text() {
    assert_eq!(truncate_str("hello", 5), "hello");
    assert_eq!(truncate_str("", 0), "");
}

#[test]
fn truncate_cuts_long_text_with_ellipsis() {
    assert_eq!(truncate_str("hello world", 5), "hello...");
    assert_eq!(truncate_str("héllo", 3), "hé...");
}

#[test]
fn decimal_renders_integers() {
    assert_eq!(decimal(0), "0");
    assert_eq!(decimal(42), "42");
    assert_eq!(decimal(-7), "-7");
    assert_eq!(decimal(i64::MAX), "9223372036854775807");
    assert_eq!(decimal(i64::MIN), "-9223372036854775808");
}

#[test]
fn split_words_on_whitespace() {
    assert_eq!(split_words("  a bc\t\nd  "), vec!["a", "bc", "d"]);
    assert!(split_words("   ").is_empty());
}

#[test]
fn fts_query_keeps_meaningful_words() {
    assert_eq!(build_fts_query("the rust borrow checker", None), "\"rust\" OR \"borrow\" OR \"checker\"");
}

#[test]
fn fts_query_adds_context_words() {
    assert_eq!(build_fts_query("sqlite", Some("for the database")), "\"sqlite\" OR \"database\"");
}

#[test]
fn fts_query_cleans_punctuation_and_keeps_dashes() {
    assert_eq!(build_fts_query("what's up-to-date? snake_case!", None), "\"whats\" OR \"up-to-date\" OR \"snake_case\"");
}

#[test]
fn fts_query_falls_back_to_plain_words() {
    // only stop words and one-letter words: the plain words of the query are used
    assert_eq!(build_fts_query("the a", None), "\"the\" OR \"a\"");
}

#[test]
fn fts_query_without_terms_is_star() {
    assert_eq!(build_fts_query("", None), "\"*\"");
    assert_eq!(build_fts_query("?! ...", None), "\"*\"");
}

#[test]
fn fts_query_is_always_quoted() {
    for q in ["", "x", "the and", "hello world", "!!!", "Ünïcode wörds"] {
        let r = build_fts_query(q, Some("ctx"));
        assert!(r.len() >= 2);
        assert!(r.starts_with('"'));
        assert!(r.ends_with('"'));
    }
}

// ───────────── statements ─────────────

#[test]
fn update_statement_numbers_placeholders() {
    assert_eq!(
        update_statement("memories", &vec!["title", "tags"]),
        "UPDATE memories SET updated_at = ?1, title = ?2, tags = ?3 WHERE id = ?4"
    );
    assert_eq!(update_statement("projects", &vec![]), "UPDATE projects SET updated_at = ?1 WHERE id = ?2");
}

#[test]
fn filter_statement_adds_conditions() {
    assert_eq!(
        filter_statement("SELECT id FROM projects WHERE 1=1", &vec!["repo_name", "status"], " ORDER BY id"),
        "SELECT id FROM projects WHERE 1=1 AND repo_name = ?1 AND status = ?2 ORDER BY id"
    );
}

#[test]
fn assoc_statement_selects_values() {
    assert_eq!(
        assoc_statement("memory_project_association", "memory_id", "project_id"),
        "SELECT project_id FROM memory_project_association WHERE memory_id = ?1"
    );
}

// ───────────── defaults ─────────────

#[test]
fn defaults_match_the_tool_schema() {
    assert_eq!(default_memory_type(), "fact");
    assert_eq!(default_k(), 10);
    assert!(default_true());
    assert_eq!(default_max_links(), 5);
    assert_eq!(default_token_budget(), 8000);
    assert_eq!(default_similar_k(), 5);
    assert_eq!(default_direction(), "both");
}

// ───────────── dashboard and entity queries ─────────────

#[test]
fn node_ids_carry_kind_and_id() {
    assert_eq!(node_id('m', 12), "m12");
    assert_eq!(node_id('e', -3), "e-3");
}

#[test]
fn dashboard_search_query_joins_plain_terms() {
    assert_eq!(dashboard_search_query("rust, sqlite!").unwrap(), "\"rust\" OR \"sqlite\"");
    assert!(dashboard_search_query("  ?? ").is_none());
}

#[test]
fn entity_search_query_quotes_every_word() {
    assert_eq!(entity_search_query("Alice Smith"), "\"Alice\" OR \"Smith\"");
    assert_eq!(entity_search_query("a ?"), "\"a\" OR \"\"");
}

#[test]
fn direction_names() {
    assert!(matches!(direction_of("outgoing"), Direction::Outgoing));
    assert!(matches!(direction_of("incoming"), Direction::Incoming));
    assert!(matches!(direction_of("both"), Direction::Both));
    assert!(matches!(direction_of("sideways"), Direction::Both));
}

// ───────────── profile facts ─────────────

#[test]
fn profile_fact_quotes_short_content() {
    assert_eq!(profile_fact("Editor", "uses vim"), "Editor: uses vim");
}

#[test]
fn profile_fact_cuts_long_content() {
    let content = "x".repeat(250);
    let f = profile_fact("T", &content);
    assert_eq!(f, format!("T: {}...", "x".repeat(200)));
}

#[test]
fn profile_fact_cuts_before_character() {
    // byte 200 falls inside the two-byte 'é': the cut comes before it
    let content = format!("{}é{}", "a".repeat(199), "b".repeat(10));
    assert_eq!(profile_fact("T", &content), format!("T: {}...", "a".repeat(199)));
}

// ───────────── memory helpers ─────────────

#[test]
fn similarity_source_joins_title_content_keywords() {
    let mut m = memory(1, "Title", "Body", "ctx");
    m.keywords = vec!["k1".to_string(), "k2".to_string()];
    assert_eq!(similarity_source(&m), "Title Body k1 k2");
}

#[test]
fn forget_after_formats() {
    assert_eq!(parse_forget_after("1970-01-02T00:00:10"), Some(ts(86_410)));
    assert_eq!(parse_forget_after("1970-01-02 00:00:10"), Some(ts(86_410)));
    assert_eq!(parse_forget_after("1970-01-03"), Some(ts(172_800)));
    assert_eq!(parse_forget_after("tomorrow"), None);
}

#[test]
fn forget_after_with_zone() {
    assert_eq!(parse_forget_after("1970-01-02T00:00:10Z"), Some(ts(86_410)));
    assert_eq!(parse_forget_after("1970-01-02T02:00:10+02:00"), Some(ts(86_410)));
    assert_eq!(parse_forget_after("1970-01-02T00:00:10.5Z"), Some(Timestamp { secs: 86_410, nanos: 500_000_000 }));
}

// ───────────── search decisions ─────────────

#[test]
fn count_tokens_counts_title_content_context() {
    // "abcd efgh ijkl" has 14 bytes
    assert_eq!(count_tokens(&memory(1, "abcd", "efgh", "ijkl")), 3);
}

#[test]
fn reversed_reverses() {
    assert_eq!(reversed(vec![1, 2, 3]), vec![3, 2, 1]);
    assert!(reversed(Vec::<i32>::new()).is_empty());
}

#[test]
fn sharing_lists() {
    assert!(shares_i64(&vec![1, 2], &vec![3, 2]));
    assert!(!shares_i64(&vec![1, 2], &vec![3, 4]));
    assert!(!shares_i64(&vec![], &vec![3, 4]));
    assert!(shares_string(&vec!["a".to_string()], &vec!["b".to_string(), "a".to_string()]));
    assert!(!shares_string(&vec!["a".to_string()], &vec!["b".to_string()]));
}

#[test]
fn filters_of_a_search() {
    let now = ts(1000);
    let mut p = query("x");
    let m = memory(1, "t", "c", "x");
    assert!(check_other_filters(&m, &p, &now));

    p.min_importance = Some(8);
    assert!(!check_other_filters(&m, &p, &now));
    p.min_importance = Some(7);
    assert!(check_other_filters(&m, &p, &now));

    p.container_tag = Some("work".to_string());
    assert!(!check_other_filters(&m, &p, &now));
    let mut tagged = memory(2, "t", "c", "x");
    tagged.container_tag = Some("work".to_string());
    assert!(check_other_filters(&tagged, &p, &now));

    p.tags = vec!["rust".to_string()];
    assert!(!check_other_filters(&tagged, &p, &now));
    tagged.tags = vec!["go".to_string(), "rust".to_string()];
    assert!(check_other_filters(&tagged, &p, &now));

    tagged.forget_after = Some(ts(999));
    assert!(!check_other_filters(&tagged, &p, &now));
    tagged.forget_after = Some(ts(1000));
    assert!(check_other_filters(&tagged, &p, &now));
}

#[test]
fn filters_drop_old_obsolete_and_forgotten_versions() {
    let now = ts(0);
    let p = query("x");
    let mut m = memory(1, "t", "c", "x");
    m.is_latest = false;
    assert!(!check_other_filters(&m, &p, &now));
    let mut m = memory(1, "t", "c", "x");
    m.is_obsolete = true;
    assert!(!check_other_filters(&m, &p, &now));
    let mut m = memory(1, "t", "c", "x");
    m.is_forgotten = true;
    assert!(!check_other_filters(&m, &p, &now));
}

fn sized(id: i64, bytes: usize) -> MemoryWithLinks {
    // title "t", content of `bytes - 4` bytes, context "x": `bytes` bytes in all
    with_links(memory(id, "t", &"c".repeat(bytes - 4), "x"), vec![])
}

#[test]
fn primary_results_fit_the_budget() {
    // 40 bytes each: 10 tokens each
    let ms = vec![sized(1, 40), sized(2, 40), sized(3, 40)];
    let (prim, used) = select_primary(ms, 10, 25);
    assert_eq!(prim.len(), 2);
    assert_eq!(used, 20);
    assert_eq!(prim[0].memory.id, 1);
    assert_eq!(prim[1].memory.id, 2);
}

#[test]
fn first_primary_result_is_kept_over_budget() {
    let ms = vec![sized(1, 400), sized(2, 4)];
    let (prim, used) = select_primary(ms, 10, 50);
    assert_eq!(prim.len(), 1);
    assert_eq!(used, 100);
}

#[test]
fn primary_results_are_capped() {
    let ms = vec![sized(1, 4), sized(2, 4), sized(3, 4)];
    let (prim, used) = select_primary(ms, 2, 8000);
    assert_eq!(prim.len(), 2);
    assert_eq!(used, 2);
    let (prim, used) = select_primary(vec![sized(1, 4)], 0, 8000);
    assert!(prim.is_empty());
    assert_eq!(used, 0);
}

#[test]
fn primary_selection_stops_at_first_misfit() {
    // the third would fit, but the walk ends at the second
    let ms = vec![sized(1, 40), sized(2, 400), sized(3, 4)];
    let (prim, used) = select_primary(ms, 10, 50);
    assert_eq!(prim.len(), 1);
    assert_eq!(used, 10);
}

#[test]
fn linked_memories_skip_seen_unreadable_and_retired() {
    let prims = vec![with_links(memory(1, "a", "b", "c"), vec![1, 2, 3, 4, 5])];
    let mut obsolete = memory(4, "t", "c", "x");
    obsolete.is_obsolete = true;
    let fetched = vec![vec![
        Some(sized(1, 8)),
        None,
        Some(sized(3, 8)),
        Some(with_links(obsolete, vec![])),
        Some(sized(5, 8)),
    ]];
    let (out, used) = expand_links(&prims, fetched, HashSet::from([1]), 0, 5, 100);
    let ids: Vec<i64> = out.iter().map(|e| e.memory.memory.id).collect();
    assert_eq!(ids, vec![3, 5]);
    assert!(out.iter().all(|e| e.link_source_id == 1));
    assert_eq!(used, 4);
}

#[test]
fn linked_memories_respect_per_primary_cap() {
    let prims = vec![
        with_links(memory(1, "a", "b", "c"), vec![10, 11, 12]),
        with_links(memory(2, "a", "b", "c"), vec![13]),
    ];
    let fetched = vec![
        vec![Some(sized(10, 4)), Some(sized(11, 4)), Some(sized(12, 4))],
        vec![Some(sized(13, 4))],
    ];
    let (out, _) = expand_links(&prims, fetched, HashSet::from([1, 2]), 0, 2, 100);
    let pairs: Vec<(i64, i64)> = out.iter().map(|e| (e.link_source_id, e.memory.memory.id)).collect();
    assert_eq!(pairs, vec![(1, 10), (1, 11), (2, 13)]);
}

#[test]
fn linked_memories_are_not_repeated_across_primaries() {
    let prims = vec![
        with_links(memory(1, "a", "b", "c"), vec![7]),
        with_links(memory(2, "a", "b", "c"), vec![7, 8]),
    ];
    let fetched = vec![vec![Some(sized(7, 4))], vec![Some(sized(7, 4)), Some(sized(8, 4))]];
    let (out, used) = expand_links(&prims, fetched, HashSet::from([1, 2]), 0, 5, 100);
    let pairs: Vec<(i64, i64)> = out.iter().map(|e| (e.link_source_id, e.memory.memory.id)).collect();
    assert_eq!(pairs, vec![(1, 7), (2, 8)]);
    assert_eq!(used, 2);
}

#[test]
fn linked_memories_stop_at_budget() {
    let prims = vec![with_links(memory(1, "a", "b", "c"), vec![10, 11, 12])];
    let fetched = vec![vec![Some(sized(10, 40)), Some(sized(11, 400)), Some(sized(12, 4))]];
    let (out, used) = expand_links(&prims, fetched, HashSet::from([1]), 5, 5, 50);
    let ids: Vec<i64> = out.iter().map(|e| e.memory.memory.id).collect();
    assert_eq!(ids, vec![10]);
    assert_eq!(used, 15);
}

// ───────────── tool catalog ─────────────

#[test]
fn tool_catalog_lists_every_category() {
    let cats = sabmemory::tools::tool_catalog();
    let names: Vec<&str> = cats.iter().map(|c| c.name.as_str()).collect();
    assert_eq!(names, vec!["memory", "entity", "project", "document", "code_artifact", "user", "profile", "meta"]);
    let total: usize = cats.iter().map(|c| c.tools.len()).sum();
    assert_eq!(total, 49);
    assert_eq!(cats[7].tools[0].name, "list_tools");
    assert_eq!(cats[7].tools[1].name, "tool_info");
    assert_eq!(cats[0].tools.len(), 13);
    assert_eq!(cats[0].tools[0].name, "create_memory");
    assert_eq!(cats[0].tools[0].description, "Create a new atomic memory with auto-linking");
    assert_eq!(cats[6].tools[1].name, "refresh_profile");
}

fn entity(id: i64, name: &str) -> Entity {
    Entity {
        id,
        user_id: "default".to_string(),
        name: name.to_string(),
        entity_type: "person".to_string(),
        custom_type: None,
        notes: None,
        tags: vec![],
        aka: vec![],
        created_at: ts(0),
        updated_at: ts(0),
    }
}

#[test]
fn keep_in_projects_keeps_entities_sharing_a_project_in_order() {
    let entities = vec![entity(1, "Ada"), entity(2, "Bob"), entity(3, "Cy"), entity(4, "Di")];
    let links = vec![vec![10, 11], vec![], vec![12], vec![11]];
    let kept = keep_in_projects(entities, &links, &vec![11, 12]);
    let names: Vec<&str> = kept.iter().map(|e| e.name.as_str()).collect();
    assert_eq!(names, vec!["Ada", "Cy", "Di"]);
}

#[test]
fn keep_in_projects_keeps_none_without_shared_project() {
    let entities = vec![entity(1, "Ada"), entity(2, "Bob")];
    let links = vec![vec![1], vec![2]];
    assert!(keep_in_projects(entities, &links, &vec![3]).is_empty());
}

#[test]
fn whitespace_is_what_std_says() {
    for u in 0u32..=0x10FFFF {
        if let Some(c) = char::from_u32(u) {
            assert_eq!(is_whitespace(c), c.is_whitespace(), "U+{:04X}", u);
        }
    }
}
