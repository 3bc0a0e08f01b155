use sabmemory::migrate::{
    migrate_associations, migrate_code_artifacts, migrate_documents, migrate_entities, migrate_memories,
    migrate_projects, migrate_relationships, migrate_superseded, table_exists,
};
use sabmemory::sql::{DbError, RecordKind};
use sabmemory::store::Database;

fn source() -> Database {
    let conn = rusqlite::Connection::open_in_memory().unwrap();
    conn.execute_batch(
        "CREATE TABLE projects (id INTEGER PRIMARY KEY, user_id TEXT, name TEXT, description TEXT,
            project_type TEXT, status TEXT, repo_name TEXT, notes TEXT, created_at TEXT, updated_at TEXT);
         CREATE TABLE memories (id INTEGER PRIMARY KEY, user_id TEXT, title TEXT, content TEXT, context TEXT,
            keywords TEXT, tags TEXT, importance INTEGER, is_obsolete INTEGER, obsolete_reason TEXT,
            superseded_by INTEGER, obsoleted_at TEXT, source_repo TEXT, source_files TEXT, source_url TEXT,
            confidence REAL, encoding_agent TEXT, created_at TEXT, updated_at TEXT);
         CREATE TABLE memory_project_association (memory_id INTEGER, project_id INTEGER);
         INSERT INTO projects VALUES (3, 'someone', 'Alpha', NULL, NULL, NULL, 'alpha-repo', NULL,
            '2024-01-02 03:04:05', '2024-01-02 03:04:05');
         INSERT INTO memories VALUES (11, 'someone', 'Old note', 'Carried over from the old store', NULL,
            NULL, '[\"x\"]', NULL, 1, 'stale', NULL, NULL, NULL, NULL, NULL, 0.5, NULL,
            '2024-01-02 03:04:05', '2024-01-03 03:04:05');
         INSERT INTO memory_project_association VALUES (11, 3);",
    )
    .unwrap();
    Database::wrap(conn)
}

fn store() -> Database {
    Database::open(rusqlite::Connection::open_in_memory().unwrap()).unwrap()
}

#[test]
fn migration_copies_rows_with_defaults() {
    let src = source();
    let mut dest = store();
    assert_eq!(migrate_projects(&src, &mut dest).unwrap(), 1);
    assert_eq!(migrate_entities(&src, &mut dest).unwrap(), 0);
    assert_eq!(migrate_memories(&src, &mut dest).unwrap(), 1);
    assert_eq!(migrate_documents(&src, &mut dest).unwrap(), 0);
    assert_eq!(migrate_code_artifacts(&src, &mut dest).unwrap(), 0);
    assert_eq!(migrate_relationships(&src, &mut dest).unwrap(), 0);
    assert_eq!(migrate_associations(&src, &mut dest).unwrap(), 1);

    let p = dest.get_project(3).unwrap().project;
    assert_eq!(p.name, "Alpha");
    assert_eq!(p.description, "");
    assert_eq!(p.status, "active");
    assert_eq!(p.repo_name.as_deref(), Some("alpha-repo"));
    assert_eq!(p.user_id, "default");

    let m = dest.get_memory_with_links(11).unwrap();
    assert_eq!(m.memory.title, "Old note");
    assert_eq!(m.memory.context, "");
    assert_eq!(m.memory.keywords, Vec::<String>::new());
    assert_eq!(m.memory.tags, vec!["x".to_string()]);
    assert_eq!(m.memory.importance, 5);
    assert!(m.memory.is_obsolete);
    assert_eq!(m.memory.obsolete_reason.as_deref(), Some("stale"));
    assert_eq!(m.memory.version, 1);
    assert!(m.memory.is_latest);
    assert_eq!(m.memory.memory_type, "fact");
    assert_eq!(m.project_ids, vec![3]);
}

#[test]
fn migration_copies_again_without_duplicates() {
    let src = source();
    let mut dest = store();
    assert_eq!(migrate_projects(&src, &mut dest).unwrap(), 1);
    assert_eq!(migrate_projects(&src, &mut dest).unwrap(), 1);
    assert_eq!(dest.list_projects(None, None).unwrap().len(), 1);
}

#[test]
fn migration_reports_first_bad_column() {
    let conn = rusqlite::Connection::open_in_memory().unwrap();
    conn.execute_batch(
        "CREATE TABLE projects (id, user_id, name, description, project_type, status, repo_name, notes,
            created_at, updated_at);
         INSERT INTO projects VALUES (1, 'u', 'Good', '', NULL, 'active', NULL, NULL, '2024-01-02 03:04:05', '2024-01-02 03:04:05');
         INSERT INTO projects VALUES (2, 'u', 42, '', 7, 'active', NULL, NULL, '2024-01-02 03:04:05', '2024-01-02 03:04:05');",
    )
    .unwrap();
    let src = Database::wrap(conn);
    let mut dest = store();
    match migrate_projects(&src, &mut dest) {
        Err(DbError::InvalidColumn(c)) => assert_eq!(c, 2),
        other => panic!("unexpected result: {:?}", other.map_err(|_| ())),
    }
    assert_eq!(dest.get_project(1).unwrap().project.name, "Good");
    assert!(matches!(dest.get_project(2), Err(DbError::NotFound(RecordKind::Project, 2))));
}

#[test]
fn table_exists_finds_only_present_tables() {
    let src = source();
    assert!(table_exists(&src, "projects"));
    assert!(!table_exists(&src, "entities"));
}

#[test]
fn migration_keeps_later_superseding_memory() {
    let conn = rusqlite::Connection::open_in_memory().unwrap();
    conn.execute_batch(
        "CREATE TABLE memories (id INTEGER PRIMARY KEY, user_id TEXT, title TEXT, content TEXT, context TEXT,
            keywords TEXT, tags TEXT, importance INTEGER, is_obsolete INTEGER, obsolete_reason TEXT,
            superseded_by INTEGER, obsoleted_at TEXT, source_repo TEXT, source_files TEXT, source_url TEXT,
            confidence REAL, encoding_agent TEXT, created_at TEXT, updated_at TEXT);
         INSERT INTO memories VALUES (5, 'someone', 'First', 'older fact', NULL, NULL, NULL, 5, 1, 'replaced',
            9, NULL, NULL, NULL, NULL, NULL, NULL, '2024-01-02 03:04:05', '2024-01-02 03:04:05');
         INSERT INTO memories VALUES (9, 'someone', 'Second', 'newer fact', NULL, NULL, NULL, 5, 0, NULL,
            NULL, NULL, NULL, NULL, NULL, NULL, NULL, '2024-01-03 03:04:05', '2024-01-03 03:04:05');",
    )
    .unwrap();
    let src = Database::wrap(conn);
    let mut dest = store();
    assert_eq!(migrate_memories(&src, &mut dest).unwrap(), 2);
    assert_eq!(migrate_superseded(&src, &mut dest).unwrap(), 1);
    let first = dest.get_memory_with_links(5).unwrap();
    assert_eq!(first.memory.superseded_by, Some(9));
    assert!(first.memory.is_obsolete);
    assert_eq!(dest.get_memory_with_links(9).unwrap().memory.superseded_by, None);
}

#[test]
fn migration_copies_rows_before_an_unreadable_one() {
    let conn = rusqlite::Connection::open_in_memory().unwrap();
    conn.execute_batch(
        "CREATE TABLE projects (id INTEGER PRIMARY KEY, user_id TEXT, name TEXT, description TEXT,
            project_type TEXT, status TEXT, repo_name TEXT, notes TEXT, created_at TEXT, updated_at TEXT);
         INSERT INTO projects VALUES (1, 'u', 'First', NULL, NULL, NULL, NULL, NULL,
            '2024-01-02 03:04:05', '2024-01-02 03:04:05');
         INSERT INTO projects VALUES (2, 'u', CAST(X'FF' AS TEXT), NULL, NULL, NULL, NULL, NULL,
            '2024-01-02 03:04:05', '2024-01-02 03:04:05');",
    )
    .unwrap();
    let src = Database::wrap(conn);
    let mut dest = store();
    assert!(matches!(migrate_projects(&src, &mut dest), Err(DbError::Sqlite(_))));
    assert_eq!(dest.get_project(1).unwrap().project.name, "First");
}
