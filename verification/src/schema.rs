//! The schema manager's migration plan.
//!
//! The on-disk schema is created and upgraded by a fixed sequence of
//! additive steps, numbered from one.  Each step's statement is written to
//! be a no-op when its table already exists, so re-applying a step is
//! harmless; what must never happen is applying steps out of order — the
//! checklist and layout tables declare foreign keys to the goals table —
//! or skipping one.  `pending_migrations` decides, from the version a
//! database file has already reached, exactly which steps remain and in
//! which order; the shell executes them and aborts startup on the first
//! failure.

use vstd::prelude::*;

verus! {

/// The number of schema versions; a fully migrated database is at this
/// version.
pub const SCHEMA_VERSION: i64 = 4;

/// One additive schema step.
#[derive(Clone, Copy, Debug)]
pub struct Migration {
    pub version: i64,
    pub description: &'static str,
    pub sql: &'static str,
}

/// Step one: the root table; every other table refers to it.
pub const GOALS_TABLE_SQL: &'static str = "CREATE TABLE IF NOT EXISTS goals (
                id INTEGER PRIMARY KEY AUTOINCREMENT,
                title TEXT NOT NULL,
                description TEXT,
                target_value INTEGER NOT NULL,
                current_value INTEGER DEFAULT 0,
                goal_type TEXT NOT NULL CHECK (goal_type IN ('daily', 'weekly', 'monthly', 'yearly')),
                created_at DATETIME DEFAULT CURRENT_TIMESTAMP,
                updated_at DATETIME DEFAULT CURRENT_TIMESTAMP,
                is_active BOOLEAN DEFAULT TRUE
            );";

/// Step two: checklist items, owned by a goal.
pub const CHECKLIST_TABLE_SQL: &'static str = "CREATE TABLE IF NOT EXISTS checklist_items (
                id INTEGER PRIMARY KEY AUTOINCREMENT,
                goal_id INTEGER NOT NULL,
                title TEXT NOT NULL,
                is_completed BOOLEAN DEFAULT FALSE,
                order_index INTEGER DEFAULT 0,
                created_at DATETIME DEFAULT CURRENT_TIMESTAMP,
                FOREIGN KEY (goal_id) REFERENCES goals(id) ON DELETE CASCADE
            );";

/// Step three: dashboard geometry, one slot per goal.
pub const LAYOUT_TABLE_SQL: &'static str = "CREATE TABLE IF NOT EXISTS layout (
                id INTEGER PRIMARY KEY AUTOINCREMENT,
                goal_id INTEGER NOT NULL,
                x_position REAL DEFAULT 0,
                y_position REAL DEFAULT 0,
                width REAL DEFAULT 1,
                height REAL DEFAULT 1,
                section_type TEXT NOT NULL CHECK (section_type IN ('daily', 'weekly', 'monthly', 'yearly')),
                created_at DATETIME DEFAULT CURRENT_TIMESTAMP,
                updated_at DATETIME DEFAULT CURRENT_TIMESTAMP,
                FOREIGN KEY (goal_id) REFERENCES goals(id) ON DELETE CASCADE
            );";

/// Step four: the single notes document.
pub const NOTES_TABLE_SQL: &'static str = "CREATE TABLE IF NOT EXISTS notes (
                id INTEGER PRIMARY KEY AUTOINCREMENT,
                content TEXT NOT NULL,
                created_at DATETIME DEFAULT CURRENT_TIMESTAMP,
                updated_at DATETIME DEFAULT CURRENT_TIMESTAMP
            );";

/// The statement belonging to a schema version.
pub open spec fn step_sql(version: int) -> &'static str {
    if version == 1 {
        GOALS_TABLE_SQL
    } else if version == 2 {
        CHECKLIST_TABLE_SQL
    } else if version == 3 {
        LAYOUT_TABLE_SQL
    } else {
        NOTES_TABLE_SQL
    }
}

/// The full migration sequence: versions one through four, ascending,
/// each step carrying exactly its table's statement.
pub fn migrations() -> (r: Vec<Migration>)
    ensures
        r@.len() == SCHEMA_VERSION,
        forall|i: int|
            0 <= i < r@.len() ==> (#[trigger] r@[i]).version == i + 1 && r@[i].sql == step_sql(
                i + 1,
            ),
        r@[0].description@ == "create_goals_table"@,
        r@[1].description@ == "create_checklist_items_table"@,
        r@[2].description@ == "create_layout_table"@,
        r@[3].description@ == "create_notes_table"@,
{
    let mut v: Vec<Migration> = Vec::new();
    v.push(Migration { version: 1, description: "create_goals_table", sql: GOALS_TABLE_SQL });
    v.push(
        Migration {
            version: 2,
            description: "create_checklist_items_table",
            sql: CHECKLIST_TABLE_SQL,
        },
    );
    v.push(Migration { version: 3, description: "create_layout_table", sql: LAYOUT_TABLE_SQL });
    v.push(Migration { version: 4, description: "create_notes_table", sql: NOTES_TABLE_SQL });
    v
}

/// The schema version already applied, clamped to the meaningful range: a
/// fresh file reports zero or less, a fully migrated one the last version.
pub open spec fn version_reached(current_version: i64) -> int {
    if current_version >= SCHEMA_VERSION {
        SCHEMA_VERSION as int
    } else if current_version <= 0 {
        0
    } else {
        current_version as int
    }
}

/// How many steps a database at `current_version` still needs.
pub open spec fn pending_count(current_version: i64) -> int {
    SCHEMA_VERSION - version_reached(current_version)
}

/// The steps a database at `current_version` still needs: exactly those
/// with a greater version, each exactly once, in ascending order.  A fresh
/// file gets the whole sequence; a fully migrated one gets none.
pub fn pending_migrations(current_version: i64) -> (r: Vec<Migration>)
    ensures
        r@.len() == pending_count(current_version),
        forall|k: int|
            0 <= k < r@.len() ==> (#[trigger] r@[k]).version == version_reached(current_version)
                + 1 + k && r@[k].sql == step_sql(r@[k].version as int),
        forall|k: int| 0 <= k < r@.len() ==> (#[trigger] r@[k]).version > current_version,
{
    let all = migrations();
    let ghost cut = version_reached(current_version);
    let mut r: Vec<Migration> = Vec::new();
    let mut i: usize = 0;
    while i < all.len()
        invariant
            i <= all@.len(),
            all@.len() == SCHEMA_VERSION,
            0 <= cut <= SCHEMA_VERSION,
            cut == version_reached(current_version),
            forall|t: int|
                0 <= t < all@.len() ==> (#[trigger] all@[t]).version == t + 1 && all@[t].sql
                    == step_sql(t + 1),
            r@.len() == if i as int <= cut {
                0int
            } else {
                i as int - cut
            },
            forall|k: int|
                0 <= k < r@.len() ==> (#[trigger] r@[k]).version == cut + 1 + k && r@[k].sql
                    == step_sql(cut + 1 + k),
        decreases all@.len() - i,
    {
        if all[i].version > current_version {
            r.push(all[i]);
        }
        i = i + 1;
    }
    r
}

} // verus!
