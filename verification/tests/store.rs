use sabmemory::params::{
    CreateCodeArtifactParams, CreateDocumentParams, CreateEntityParams, CreateMemoryParams, CreateProjectParams,
    CreateRelationshipParams, CreateVersionParams, QueryMemoryParams, UpdateCodeArtifactParams,
    UpdateDocumentParams, UpdateEntityParams, UpdateMemoryParams, UpdateProjectParams, UpdateRelationshipParams,
};
use sabmemory::dashboard::{DashboardError, EdgeKind, GraphNode};
use sabmemory::sql::{DbError, Number, RecordKind, Timestamp};
use sabmemory::store::Database;

fn open() -> Database {
    let conn = rusqlite::Connection::open_in_memory().unwrap();
    Database::open(conn).unwrap()
}

fn new_memory(title: &str, content: &str) -> CreateMemoryParams {
    CreateMemoryParams {
        title: title.to_string(),
        content: content.to_string(),
        context: "testing".to_string(),
        keywords: vec![],
        tags: vec![],
        importance: 7,
        project_ids: vec![],
        entity_ids: vec![],
        document_ids: vec![],
        code_artifact_ids: vec![],
        source_repo: None,
        source_files: None,
        source_url: None,
        confidence: None,
        encoding_agent: None,
        memory_type: "fact".to_string(),
        container_tag: None,
        forget_after: None,
    }
}

fn search(q: &str) -> QueryMemoryParams {
    QueryMemoryParams {
        query: q.to_string(),
        query_context: None,
        k: 10,
        include_links: false,
        max_links_per_primary: 5,
        project_ids: vec![],
        tags: vec![],
        min_importance: None,
        token_budget: 8000,
        container_tag: None,
    }
}

fn no_update(id: i64) -> UpdateMemoryParams {
    UpdateMemoryParams {
        memory_id: id,
        title: None,
        content: None,
        context: None,
        keywords: None,
        tags: None,
        importance: None,
        source_repo: None,
        source_files: None,
        source_url: None,
        confidence: None,
        container_tag: None,
    }
}

fn primary_ids(db: &Database, p: &QueryMemoryParams) -> Vec<i64> {
    db.query_memories(p).unwrap().primary_memories.iter().map(|m| m.memory.id).collect()
}

// ───────────── memories ─────────────

#[test]
fn created_memory_reads_back() {
    let mut db = open();
    let mut p = new_memory("Zebra facts", "Zebras have stripes");
    p.keywords = vec!["zebra".to_string()];
    p.tags = vec!["animals".to_string()];
    p.source_files = Some(vec!["a.rs".to_string()]);
    p.confidence = Some(Number::Integer(1));
    let m = db.create_memory(&p).unwrap();
    assert_eq!(m.memory.title, "Zebra facts");
    assert_eq!(m.memory.content, "Zebras have stripes");
    assert_eq!(m.memory.keywords, vec!["zebra".to_string()]);
    assert_eq!(m.memory.tags, vec!["animals".to_string()]);
    assert_eq!(m.memory.source_files, Some(vec!["a.rs".to_string()]));
    assert_eq!(m.memory.version, 1);
    assert!(m.memory.is_latest);
    assert!(!m.memory.is_obsolete);
    assert_eq!(m.memory.user_id, "default");
    let again = db.get_memory_with_links(m.memory.id).unwrap();
    assert_eq!(again.memory.title, "Zebra facts");
}

#[test]
fn missing_memory_is_not_found() {
    let mut db = open();
    match db.get_memory_with_links(999) {
        Err(DbError::NotFound(RecordKind::Memory, 999)) => {}
        other => panic!("unexpected: {:?}", other),
    }
}

#[test]
fn update_changes_only_given_fields() {
    let mut db = open();
    let m = db.create_memory(&new_memory("Draft", "Body text")).unwrap();
    let mut u = no_update(m.memory.id);
    u.title = Some("Renamed".to_string());
    u.tags = Some(vec!["x".to_string(), "y".to_string()]);
    let after = db.update_memory(&u).unwrap();
    assert_eq!(after.memory.title, "Renamed");
    assert_eq!(after.memory.content, "Body text");
    assert_eq!(after.memory.tags, vec!["x".to_string(), "y".to_string()]);
    assert_eq!(after.memory.importance, 7);
}

#[test]
fn update_of_missing_memory_is_not_found() {
    let mut db = open();
    let mut u = no_update(42);
    u.title = Some("x".to_string());
    assert!(matches!(db.update_memory(&u), Err(DbError::NotFound(RecordKind::Memory, 42))));
}

#[test]
fn search_finds_memory_by_word() {
    let mut db = open();
    let a = db.create_memory(&new_memory("Quokka habitat", "Quokkas live on Rottnest island")).unwrap();
    db.create_memory(&new_memory("Unrelated", "Completely different subject matter")).unwrap();
    let res = db.query_memories(&search("quokka island")).unwrap();
    assert_eq!(res.primary_memories.len(), 1);
    assert_eq!(res.primary_memories[0].memory.id, a.memory.id);
    assert_eq!(res.total_count, 1);
    assert!(res.linked_memories.is_empty());
    assert!(!res.truncated);
}

#[test]
fn search_skips_obsolete_and_forgotten() {
    let mut db = open();
    let a = db.create_memory(&new_memory("Pelican one", "pelican notes")).unwrap();
    let b = db.create_memory(&new_memory("Pelican two", "pelican notes")).unwrap();
    let c = db.create_memory(&new_memory("Pelican three", "pelican notes")).unwrap();
    db.mark_obsolete(a.memory.id, "outdated", Some(c.memory.id)).unwrap();
    db.forget_memory(b.memory.id, Some("not needed")).unwrap();
    assert_eq!(primary_ids(&db, &search("pelican")), vec![c.memory.id]);
    let obs = db.get_memory_with_links(a.memory.id).unwrap();
    assert!(obs.memory.is_obsolete);
    assert_eq!(obs.memory.obsolete_reason.as_deref(), Some("outdated"));
    assert_eq!(obs.memory.superseded_by, Some(c.memory.id));
    let forgotten = db.get_memory_with_links(b.memory.id).unwrap();
    assert!(forgotten.memory.is_forgotten);
}

#[test]
fn search_respects_token_budget() {
    let mut db = open();
    let long = "walrus ".repeat(100);
    db.create_memory(&new_memory("Walrus one", &long)).unwrap();
    db.create_memory(&new_memory("Walrus two", &long)).unwrap();
    let mut p = search("walrus");
    p.token_budget = 50;
    let res = db.query_memories(&p).unwrap();
    // the first result is kept although it alone is over budget
    assert_eq!(res.primary_memories.len(), 1);
    assert!(res.token_count > 50);
    assert!(res.truncated);
}

#[test]
fn search_caps_results_at_k() {
    let mut db = open();
    for i in 0..4 {
        db.create_memory(&new_memory(&format!("Heron {}", i), "heron sighting")).unwrap();
    }
    let mut p = search("heron");
    p.k = 2;
    assert_eq!(db.query_memories(&p).unwrap().primary_memories.len(), 2);
}

#[test]
fn search_filters_by_tag_container_and_importance() {
    let mut db = open();
    let mut a = new_memory("Otter alpha", "otter behaviour");
    a.tags = vec!["river".to_string()];
    a.container_tag = Some("zoo".to_string());
    a.importance = 9;
    let a = db.create_memory(&a).unwrap();
    let b = db.create_memory(&new_memory("Otter beta", "otter behaviour")).unwrap();

    let mut p = search("otter");
    p.tags = vec!["river".to_string()];
    assert_eq!(primary_ids(&db, &p), vec![a.memory.id]);

    let mut p = search("otter");
    p.container_tag = Some("zoo".to_string());
    assert_eq!(primary_ids(&db, &p), vec![a.memory.id]);

    let mut p = search("otter");
    p.min_importance = Some(8);
    assert_eq!(primary_ids(&db, &p), vec![a.memory.id]);

    let mut all = primary_ids(&db, &search("otter"));
    all.sort();
    let mut want = vec![a.memory.id, b.memory.id];
    want.sort();
    assert_eq!(all, want);
}

#[test]
fn search_filters_by_project() {
    let mut db = open();
    let proj = db.create_project(&CreateProjectParams {
        name: "Zoo".to_string(),
        description: "animals".to_string(),
        project_type: None,
        repo_name: None,
        notes: None,
    }).unwrap();
    let mut a = new_memory("Lemur one", "lemur jumping");
    a.project_ids = vec![proj.id];
    let a = db.create_memory(&a).unwrap();
    db.create_memory(&new_memory("Lemur two", "lemur jumping")).unwrap();
    let mut p = search("lemur");
    p.project_ids = vec![proj.id];
    assert_eq!(primary_ids(&db, &p), vec![a.memory.id]);
    assert_eq!(a.project_ids, vec![proj.id]);
}

#[test]
fn expired_memories_are_forgotten() {
    let mut db = open();
    let mut p = new_memory("Ibis old", "ibis migration");
    p.forget_after = Some("2000-01-01".to_string());
    let old = db.create_memory(&p).unwrap();
    let mut p = new_memory("Ibis new", "ibis migration");
    p.forget_after = Some("2999-01-01T00:00:00".to_string());
    let new = db.create_memory(&p).unwrap();
    // an expired memory is left out of a search even before it is marked
    assert_eq!(primary_ids(&db, &search("ibis")), vec![new.memory.id]);
    assert_eq!(db.process_auto_forget().unwrap(), 1);
    assert!(db.get_memory_with_links(old.memory.id).unwrap().memory.is_forgotten);
    assert!(!db.get_memory_with_links(new.memory.id).unwrap().memory.is_forgotten);
}

#[test]
fn link_then_unlink_keeps_other_links() {
    let mut db = open();
    let a = db.create_memory(&new_memory("Harbor", "boats moored")).unwrap().memory.id;
    let b = db.create_memory(&new_memory("Lighthouse", "beam at night")).unwrap().memory.id;
    let c = db.create_memory(&new_memory("Quay", "stone wall")).unwrap().memory.id;
    db.link_memories(a, &vec![c]).unwrap();
    let before_a = db.get_memory_with_links(a).unwrap().linked_memory_ids;
    let before_b = db.get_memory_with_links(b).unwrap().linked_memory_ids;
    db.link_memories(a, &vec![b]).unwrap();
    db.unlink_memories(a, &vec![b]).unwrap();
    let mut after_a = db.get_memory_with_links(a).unwrap().linked_memory_ids;
    let mut want_a: Vec<i64> = before_a.into_iter().filter(|x| *x != b).collect();
    after_a.sort();
    want_a.sort();
    assert_eq!(after_a, want_a);
    assert!(after_a.contains(&c));
    let mut after_b = db.get_memory_with_links(b).unwrap().linked_memory_ids;
    let mut want_b: Vec<i64> = before_b.into_iter().filter(|x| *x != a).collect();
    after_b.sort();
    want_b.sort();
    assert_eq!(after_b, want_b);
}

#[test]
fn search_at_a_given_time_judges_expiry_then() {
    let mut db = open();
    let mut p = new_memory("Heron", "heron wades");
    p.forget_after = Some("2030-01-02T00:00:00Z".to_string());
    let m = db.create_memory(&p).unwrap();
    let before = Timestamp { secs: 1_893_456_000 - 1, nanos: 0 };
    let after = Timestamp { secs: 1_893_542_400 + 1, nanos: 0 };
    let ids = |r: sabmemory::records::SearchResult| r.primary_memories.iter().map(|x| x.memory.id).collect::<Vec<i64>>();
    assert_eq!(ids(db.query_memories_at(&search("heron"), &before).unwrap()), vec![m.memory.id]);
    assert!(ids(db.query_memories_at(&search("heron"), &after).unwrap()).is_empty());
}

#[test]
fn expiry_comes_before_the_search() {
    let mut db = open();
    let mut p = new_memory("Egret", "egret plumes");
    p.forget_after = Some("2000-01-01".to_string());
    let old = db.create_memory(&p).unwrap();
    let res = db.expire_then_query_memories(&search("egret")).unwrap();
    assert!(res.primary_memories.is_empty());
    assert!(db.get_memory_with_links(old.memory.id).unwrap().memory.is_forgotten);
    assert!(db.expire_then_get_recent(10, &vec![], None).unwrap().iter().all(|m| m.memory.id != old.memory.id));
}

#[test]
fn version_chain_of_missing_memory_is_not_found() {
    let db = open();
    assert!(matches!(db.get_version_chain(4242), Err(DbError::NotFound(RecordKind::Memory, 4242))));
}

#[test]
fn links_are_bidirectional() {
    let mut db = open();
    let a = db.create_memory(&new_memory("Alpha note", "first distinct concept")).unwrap();
    let b = db.create_memory(&new_memory("Bravo item", "second separate idea")).unwrap();
    db.link_memories(a.memory.id, &vec![b.memory.id]).unwrap();
    assert!(db.get_memory_with_links(a.memory.id).unwrap().linked_memory_ids.contains(&b.memory.id));
    assert!(db.get_memory_with_links(b.memory.id).unwrap().linked_memory_ids.contains(&a.memory.id));
    db.unlink_memories(b.memory.id, &vec![a.memory.id]).unwrap();
    assert!(!db.get_memory_with_links(a.memory.id).unwrap().linked_memory_ids.contains(&b.memory.id));
    assert!(!db.get_memory_with_links(b.memory.id).unwrap().linked_memory_ids.contains(&a.memory.id));
}

#[test]
fn similar_memories_are_linked_on_creation() {
    let mut db = open();
    let a = db.create_memory(&new_memory("Kestrel hunting", "kestrel hovers over fields")).unwrap();
    let b = db.create_memory(&new_memory("Kestrel nesting", "kestrel nests in cliffs")).unwrap();
    assert!(b.linked_memory_ids.contains(&a.memory.id));
    assert!(db.get_memory_with_links(a.memory.id).unwrap().linked_memory_ids.contains(&b.memory.id));
}

#[test]
fn search_expands_links() {
    let mut db = open();
    let a = db.create_memory(&new_memory("Gannet", "gannet dives")).unwrap();
    let b = db.create_memory(&new_memory("Seabird colony", "cliffs crowded in spring")).unwrap();
    db.link_memories(a.memory.id, &vec![b.memory.id]).unwrap();
    let mut p = search("gannet");
    p.include_links = true;
    let res = db.query_memories(&p).unwrap();
    assert_eq!(res.primary_memories.len(), 1);
    assert_eq!(res.linked_memories.len(), 1);
    assert_eq!(res.linked_memories[0].memory.memory.id, b.memory.id);
    assert_eq!(res.linked_memories[0].link_source_id, a.memory.id);
    assert_eq!(res.total_count, 2);
}

#[test]
fn linked_memories_leave_out_obsolete() {
    let mut db = open();
    let a = db.create_memory(&new_memory("Puffin", "puffin beak")).unwrap();
    let b = db.create_memory(&new_memory("Old seabird", "cliffs crowded in spring")).unwrap();
    db.link_memories(a.memory.id, &vec![b.memory.id]).unwrap();
    db.mark_obsolete(b.memory.id, "stale", None).unwrap();
    let mut p = search("puffin");
    p.include_links = true;
    assert!(db.query_memories(&p).unwrap().linked_memories.is_empty());
}

#[test]
fn linked_memories_leave_out_replaced_versions() {
    let mut db = open();
    let a = db.create_memory(&new_memory("Kittiwake", "kittiwake calls")).unwrap();
    let b = db.create_memory(&new_memory("Ledge nesting", "narrow ledges hold nests")).unwrap();
    db.link_memories(a.memory.id, &vec![b.memory.id]).unwrap();
    db.create_version(&CreateVersionParams {
        parent_memory_id: b.memory.id,
        relationship_type: "updates".to_string(),
        title: "Ledge nesting".to_string(),
        content: "narrow ledges hold the nests".to_string(),
        context: "newer".to_string(),
        keywords: vec![],
        tags: vec![],
        importance: 7,
        memory_type: "fact".to_string(),
    }).unwrap();
    let mut p = search("kittiwake");
    p.include_links = true;
    let res = db.query_memories(&p).unwrap();
    assert_eq!(res.primary_memories.len(), 1);
    assert!(res.linked_memories.iter().all(|e| e.memory.memory.id != b.memory.id));
}

#[test]
fn forget_after_with_zone_is_stored() {
    let mut db = open();
    let mut p = new_memory("Tern", "terns migrate");
    p.forget_after = Some("2030-01-02T03:04:05Z".to_string());
    let m = db.create_memory(&p).unwrap();
    let fa = m.memory.forget_after.expect("stored");
    assert_eq!(fa.secs, 1_893_553_445);
}

#[test]
fn version_replaces_parent_in_search() {
    let mut db = open();
    let parent = db.create_memory(&new_memory("Albatross range", "albatross flies far")).unwrap();
    let child = db.create_version(&CreateVersionParams {
        parent_memory_id: parent.memory.id,
        relationship_type: "updates".to_string(),
        title: "Albatross range".to_string(),
        content: "albatross flies very far".to_string(),
        context: "newer data".to_string(),
        keywords: vec![],
        tags: vec![],
        importance: 7,
        memory_type: "fact".to_string(),
    }).unwrap();
    assert_eq!(child.memory.version, 2);
    assert_eq!(child.memory.parent_memory_id, Some(parent.memory.id));
    assert!(child.memory.is_latest);
    assert_eq!(child.memory.relationship_type.as_deref(), Some("updates"));
    assert!(!db.get_memory_with_links(parent.memory.id).unwrap().memory.is_latest);
    // only the latest version appears in search results
    assert_eq!(primary_ids(&db, &search("albatross")), vec![child.memory.id]);
    let chain: Vec<i64> = db.get_version_chain(child.memory.id).unwrap().iter().map(|m| m.memory.id).collect();
    assert_eq!(chain, vec![parent.memory.id, child.memory.id]);
    let chain: Vec<i64> = db.get_version_chain(parent.memory.id).unwrap().iter().map(|m| m.memory.id).collect();
    assert_eq!(chain, vec![parent.memory.id, child.memory.id]);
}

#[test]
fn version_of_missing_parent_is_refused() {
    let mut db = open();
    let r = db.create_version(&CreateVersionParams {
        parent_memory_id: 77,
        relationship_type: "extends".to_string(),
        title: "t".to_string(),
        content: "c".to_string(),
        context: "x".to_string(),
        keywords: vec![],
        tags: vec![],
        importance: 5,
        memory_type: "fact".to_string(),
    });
    assert!(matches!(r, Err(DbError::NotFound(RecordKind::ParentMemory, 77))));
}

#[test]
fn version_cycle_is_refused() {
    let mut db = open();
    let a = db.create_memory(&new_memory("Cycle a", "one")).unwrap();
    let b = db.create_memory(&new_memory("Cycle b", "two")).unwrap();
    db.execute(
        "UPDATE memories SET parent_memory_id = ?1 WHERE id = ?2",
        vec![sabmemory::sql::SqlValue::Integer(b.memory.id), sabmemory::sql::SqlValue::Integer(a.memory.id)],
    ).unwrap();
    db.execute(
        "UPDATE memories SET parent_memory_id = ?1 WHERE id = ?2",
        vec![sabmemory::sql::SqlValue::Integer(a.memory.id), sabmemory::sql::SqlValue::Integer(b.memory.id)],
    ).unwrap();
    assert!(matches!(db.get_version_chain(a.memory.id), Err(DbError::VersionCycle(id)) if id == a.memory.id));
}

#[test]
fn recent_memories_newest_first() {
    let mut db = open();
    let a = db.create_memory(&new_memory("Recent one", "aaa")).unwrap();
    let b = db.create_memory(&new_memory("Recent two", "bbb")).unwrap();
    db.execute(
        "UPDATE memories SET updated_at = '2999-01-01 00:00:00' WHERE id = ?1",
        vec![sabmemory::sql::SqlValue::Integer(a.memory.id)],
    ).unwrap();
    let ids: Vec<i64> = db.get_recent_memories(10, &vec![], None).unwrap().iter().map(|m| m.memory.id).collect();
    assert_eq!(ids, vec![a.memory.id, b.memory.id]);
    let ids: Vec<i64> = db.get_recent_memories(1, &vec![], None).unwrap().iter().map(|m| m.memory.id).collect();
    assert_eq!(ids, vec![a.memory.id]);
}

#[test]
fn deleted_memory_is_gone() {
    let mut db = open();
    let a = db.create_memory(&new_memory("Doomed", "to be deleted")).unwrap();
    db.delete_memory(a.memory.id).unwrap();
    assert!(db.get_memory_with_links(a.memory.id).is_err());
}

// ───────────── entities and relationships ─────────────

fn new_entity(name: &str) -> CreateEntityParams {
    CreateEntityParams {
        name: name.to_string(),
        entity_type: "person".to_string(),
        custom_type: None,
        notes: Some("notes".to_string()),
        tags: vec!["t".to_string()],
        aka: vec!["alias".to_string()],
    }
}

#[test]
fn entity_round_trip() {
    let mut db = open();
    let e = db.create_entity(&new_entity("Ada Lovelace")).unwrap();
    assert_eq!(e.name, "Ada Lovelace");
    assert_eq!(e.aka, vec!["alias".to_string()]);
    let got = db.get_entity(e.id).unwrap();
    assert_eq!(got.entity_type, "person");
    let up = db.update_entity(&UpdateEntityParams {
        entity_id: e.id,
        name: Some("Ada King".to_string()),
        entity_type: None,
        custom_type: None,
        notes: None,
        tags: None,
        aka: Some(vec![]),
    }).unwrap();
    assert_eq!(up.name, "Ada King");
    assert_eq!(up.notes.as_deref(), Some("notes"));
    assert!(up.aka.is_empty());
    let found = db.search_entities("Ada").unwrap();
    assert_eq!(found.len(), 1);
    db.delete_entity(e.id).unwrap();
    assert!(matches!(db.get_entity(e.id), Err(DbError::NotFound(RecordKind::Entity, id)) if id == e.id));
}

#[test]
fn list_entities_by_type_and_project() {
    let mut db = open();
    let a = db.create_entity(&new_entity("Alan")).unwrap();
    let mut org = new_entity("Acme");
    org.entity_type = "organization".to_string();
    let b = db.create_entity(&org).unwrap();
    let people: Vec<i64> = db.list_entities(&vec![], Some("person")).unwrap().iter().map(|e| e.id).collect();
    assert_eq!(people, vec![a.id]);
    let proj = db.create_project(&CreateProjectParams {
        name: "P".to_string(),
        description: "d".to_string(),
        project_type: None,
        repo_name: None,
        notes: None,
    }).unwrap();
    db.link_entity_project(b.id, proj.id).unwrap();
    let in_proj: Vec<i64> = db.list_entities(&vec![proj.id], None).unwrap().iter().map(|e| e.id).collect();
    assert_eq!(in_proj, vec![b.id]);
    db.unlink_entity_project(b.id, proj.id).unwrap();
    assert!(db.list_entities(&vec![proj.id], None).unwrap().is_empty());
}

#[test]
fn entity_memory_links() {
    let mut db = open();
    let e = db.create_entity(&new_entity("Grace")).unwrap();
    let m = db.create_memory(&new_memory("Compiler", "Grace wrote compilers")).unwrap();
    db.link_entity_memory(e.id, m.memory.id).unwrap();
    assert_eq!(db.get_entity_memories(e.id).unwrap(), vec![m.memory.id]);
    assert_eq!(db.get_memory_with_links(m.memory.id).unwrap().entity_ids, vec![e.id]);
    db.unlink_entity_memory(e.id, m.memory.id).unwrap();
    assert!(db.get_entity_memories(e.id).unwrap().is_empty());
}

#[test]
fn relationships_by_direction() {
    let mut db = open();
    let a = db.create_entity(&new_entity("A")).unwrap();
    let b = db.create_entity(&new_entity("B")).unwrap();
    let r = db.create_relationship(&CreateRelationshipParams {
        source_entity_id: a.id,
        target_entity_id: b.id,
        relationship_type: "knows".to_string(),
        strength: Some(Number::Integer(1)),
        confidence: None,
        metadata: Some("{\"since\":2020}".to_string()),
    }).unwrap();
    assert_eq!(r.relationship_type, "knows");
    assert_eq!(r.relationship_metadata.as_deref(), Some("{\"since\":2020}"));
    assert_eq!(db.get_relationships(a.id, "outgoing").unwrap().len(), 1);
    assert_eq!(db.get_relationships(a.id, "incoming").unwrap().len(), 0);
    assert_eq!(db.get_relationships(b.id, "incoming").unwrap().len(), 1);
    assert_eq!(db.get_relationships(b.id, "both").unwrap().len(), 1);
    let up = db.update_relationship(&UpdateRelationshipParams {
        relationship_id: r.id,
        relationship_type: Some("mentors".to_string()),
        strength: None,
        confidence: None,
        metadata: None,
    }).unwrap();
    assert_eq!(up.relationship_type, "mentors");
    db.delete_relationship(r.id).unwrap();
    assert!(db.get_relationships(a.id, "both").unwrap().is_empty());
}

// ───────────── projects, documents, code artifacts ─────────────

#[test]
fn project_round_trip_and_filters() {
    let mut db = open();
    let p = db.create_project(&CreateProjectParams {
        name: "Engine".to_string(),
        description: "a game engine".to_string(),
        project_type: Some("development".to_string()),
        repo_name: Some("me/engine".to_string()),
        notes: None,
    }).unwrap();
    assert_eq!(p.status, "active");
    assert_eq!(db.get_project(p.id).unwrap().memory_count, 0);
    let mut m = new_memory("Engine notes", "the engine renders");
    m.project_ids = vec![p.id];
    db.create_memory(&m).unwrap();
    assert_eq!(db.get_project(p.id).unwrap().memory_count, 1);
    db.create_project(&CreateProjectParams {
        name: "Other".to_string(),
        description: "x".to_string(),
        project_type: None,
        repo_name: None,
        notes: None,
    }).unwrap();
    let by_repo: Vec<i64> = db.list_projects(Some("me/engine"), None).unwrap().iter().map(|p| p.id).collect();
    assert_eq!(by_repo, vec![p.id]);
    let up = db.update_project(&UpdateProjectParams {
        project_id: p.id,
        name: None,
        description: None,
        project_type: None,
        status: Some("archived".to_string()),
        repo_name: None,
        notes: None,
    }).unwrap();
    assert_eq!(up.status, "archived");
    assert_eq!(up.name, "Engine");
    assert_eq!(db.list_projects(None, Some("archived")).unwrap().len(), 1);
    assert_eq!(db.list_projects(None, None).unwrap().len(), 2);
    db.delete_project(p.id).unwrap();
    assert!(matches!(db.get_project(p.id), Err(DbError::NotFound(RecordKind::Project, _))));
}

#[test]
fn document_size_follows_content() {
    let mut db = open();
    let d = db.create_document(&CreateDocumentParams {
        title: "Spec".to_string(),
        description: "the spec".to_string(),
        content: "héllo".to_string(),
        document_type: Some("markdown".to_string()),
        filename: None,
        tags: vec![],
        project_id: None,
    }).unwrap();
    assert_eq!(d.size_bytes, 6);
    let up = db.update_document(&UpdateDocumentParams {
        document_id: d.id,
        title: None,
        description: None,
        content: Some("0123456789".to_string()),
        document_type: None,
        filename: None,
        tags: None,
    }).unwrap();
    assert_eq!(up.size_bytes, 10);
    assert_eq!(up.title, "Spec");
    assert_eq!(db.list_documents(None, Some("markdown")).unwrap().len(), 1);
    assert_eq!(db.list_documents(Some(5), None).unwrap().len(), 0);
    db.delete_document(d.id).unwrap();
    assert!(db.get_document(d.id).is_err());
}

#[test]
fn code_artifact_round_trip() {
    let mut db = open();
    let c = db.create_code_artifact(&CreateCodeArtifactParams {
        title: "Hello".to_string(),
        description: "prints".to_string(),
        code: "fn main() {}".to_string(),
        language: "rust".to_string(),
        tags: vec!["demo".to_string()],
        project_id: None,
    }).unwrap();
    assert_eq!(c.language, "rust");
    assert_eq!(c.tags, vec!["demo".to_string()]);
    let up = db.update_code_artifact(&UpdateCodeArtifactParams {
        code_artifact_id: c.id,
        title: None,
        description: None,
        code: Some("fn main() { }".to_string()),
        language: None,
        tags: None,
    }).unwrap();
    assert_eq!(up.code, "fn main() { }");
    assert_eq!(db.list_code_artifacts(None, Some("rust")).unwrap().len(), 1);
    assert_eq!(db.list_code_artifacts(None, Some("go")).unwrap().len(), 0);
    db.delete_code_artifact(c.id).unwrap();
    assert!(db.get_code_artifact(c.id).is_err());
}

// ───────────── user and profile ─────────────

#[test]
fn user_notes_update() {
    let mut db = open();
    let u = db.get_user().unwrap();
    assert_eq!(u.id, "default");
    let u = db.update_user_notes("likes tea").unwrap();
    assert_eq!(u.notes.as_deref(), Some("likes tea"));
}

#[test]
fn profile_gathers_facts() {
    let mut db = open();
    let mut f = new_memory("Language", "prefers Rust");
    f.importance = 9;
    db.create_memory(&f).unwrap();
    let mut low = new_memory("Minor", "not important");
    low.importance = 3;
    db.create_memory(&low).unwrap();
    let mut pref = new_memory("Theme", "dark mode");
    pref.memory_type = "preference".to_string();
    db.create_memory(&pref).unwrap();
    let profile = db.refresh_profile().unwrap();
    assert_eq!(profile.static_facts, vec!["Language: prefers Rust".to_string()]);
    assert_eq!(profile.dynamic_facts, vec!["Theme: dark mode".to_string()]);
    let again = db.get_profile().unwrap();
    assert_eq!(again.static_facts, profile.static_facts);
}

#[test]
fn profile_cuts_long_content_before_character() {
    let mut db = open();
    let mut f = new_memory("Long", &format!("{}é", "a".repeat(199)));
    f.importance = 9;
    db.create_memory(&f).unwrap();
    let profile = db.refresh_profile().unwrap();
    assert_eq!(profile.static_facts, vec![format!("Long: {}...", "a".repeat(199))]);
}

// ───────────── dashboard ─────────────

#[test]
fn dashboard_counts_and_search() {
    let mut db = open();
    let a = db.create_memory(&new_memory("Marmot", "marmot burrow")).unwrap();
    let b = db.create_memory(&new_memory("Marmot old", "marmot burrow")).unwrap();
    db.mark_obsolete(b.memory.id, "old", None).unwrap();
    db.create_entity(&new_entity("E")).unwrap();
    let stats = db.dashboard_stats();
    assert_eq!(stats.memories, 1);
    assert_eq!(stats.obsolete, 1);
    assert_eq!(stats.entities, 1);
    let hits: Vec<i64> = db.dashboard_search("marmot").unwrap().iter().map(|h| h.id).collect();
    assert_eq!(hits, vec![a.memory.id]);
    assert!(db.dashboard_search("  ").unwrap().is_empty());
    let detail = db.dashboard_memory(a.memory.id).unwrap();
    assert_eq!(detail.title, "Marmot");
    assert!(matches!(db.dashboard_memory(9999), Err(DashboardError::NotFound)));
    assert_eq!(db.dashboard_memories().unwrap().len(), 2);
}

#[test]
fn dashboard_graph_has_nodes_and_edges() {
    let mut db = open();
    let a = db.create_memory(&new_memory("Node one", "first")).unwrap();
    let e = db.create_entity(&new_entity("Person")).unwrap();
    db.link_entity_memory(e.id, a.memory.id).unwrap();
    let g = db.dashboard_graph().unwrap();
    let mem_nodes = g.nodes.iter().filter(|n| matches!(n, GraphNode::Memory { .. })).count();
    let ent_nodes = g.nodes.iter().filter(|n| matches!(n, GraphNode::Entity { .. })).count();
    assert_eq!(mem_nodes, 1);
    assert_eq!(ent_nodes, 1);
    let assoc: Vec<(String, String)> = g.edges.iter()
        .filter(|x| x.kind == EdgeKind::EntityAssoc)
        .map(|x| (x.source.clone(), x.target.clone()))
        .collect();
    assert_eq!(assoc, vec![(format!("m{}", a.memory.id), format!("e{}", e.id))]);
}
