use goal_store::error::DbError;
use goal_store::schema::migrations;
use goal_store::schema::pending_migrations;
use goal_store::schema::SCHEMA_VERSION;

#[test]
fn migration_sequence_is_versions_one_through_four() {
    let all = migrations();
    assert_eq!(all.len() as i64, SCHEMA_VERSION);
    for (i, m) in all.iter().enumerate() {
        assert_eq!(m.version, i as i64 + 1);
    }
    assert_eq!(all[0].description, "create_goals_table");
    assert_eq!(all[1].description, "create_checklist_items_table");
    assert_eq!(all[2].description, "create_layout_table");
    assert_eq!(all[3].description, "create_notes_table");
}

#[test]
fn migration_statements_create_the_four_tables_additively() {
    let all = migrations();
    assert!(all[0].sql.contains("CREATE TABLE IF NOT EXISTS goals"));
    assert!(all[1].sql.contains("CREATE TABLE IF NOT EXISTS checklist_items"));
    assert!(all[2].sql.contains("CREATE TABLE IF NOT EXISTS layout"));
    assert!(all[3].sql.contains("CREATE TABLE IF NOT EXISTS notes"));
    // the children declare their foreign keys to goals, so order matters
    assert!(all[1].sql.contains("FOREIGN KEY (goal_id) REFERENCES goals(id)"));
    assert!(all[2].sql.contains("FOREIGN KEY (goal_id) REFERENCES goals(id)"));
    assert!(all[0].sql.contains("goal_type TEXT NOT NULL CHECK"));
}

#[test]
fn a_fresh_database_needs_every_step() {
    let steps = pending_migrations(0);
    let versions: Vec<i64> = steps.iter().map(|m| m.version).collect();
    assert_eq!(versions, vec![1, 2, 3, 4]);
    let versions: Vec<i64> = pending_migrations(-3).iter().map(|m| m.version).collect();
    assert_eq!(versions, vec![1, 2, 3, 4]);
}

#[test]
fn a_half_migrated_database_needs_only_the_tail() {
    let versions: Vec<i64> = pending_migrations(2).iter().map(|m| m.version).collect();
    assert_eq!(versions, vec![3, 4]);
}

#[test]
fn a_fully_migrated_database_needs_nothing() {
    assert!(pending_migrations(SCHEMA_VERSION).is_empty());
    assert!(pending_migrations(9).is_empty());
}

#[test]
fn connection_failure_renders_context_and_detail() {
    let e = DbError::ConnectionFailure { detail: "file is locked".to_string() };
    assert_eq!(
        e.message("Failed to connect to database"),
        "Failed to connect to database: file is locked"
    );
}

#[test]
fn statement_failure_renders_context_and_detail() {
    let e = DbError::StatementFailure { detail: "CHECK constraint failed".to_string() };
    assert_eq!(
        e.message("Failed to insert goal"),
        "Failed to insert goal: CHECK constraint failed"
    );
}
