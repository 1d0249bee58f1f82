//! The records of backups: what is asked of the database.
//!
//! A path is recorded by its text. At any time a path has at most one active record, that is
//! one that is not marked as restored. That is what the unique index of [`schema_sql`] is for; the
//! database keeps it, and [`crate::world`] takes it for granted.

use vstd::prelude::*;
use vstd::string::*;

verus! {

/// A recorded backup.
#[derive(Debug)]
pub struct BackupRow {
    pub id: i64,
    pub backup_path: String,
    pub original_ext: String,
}

/// A value that is bound to a parameter of a statement.
#[derive(Debug)]
pub enum SqlValue {
    Null,
    Integer(i64),
    Text(String),
}

/// The contents of a [`SqlValue`].
pub enum SqlValueView {
    Null,
    Integer(i64),
    Text(Seq<char>),
}

impl View for SqlValue {
    type V = SqlValueView;

    open spec fn view(&self) -> SqlValueView {
        match *self {
            SqlValue::Null => SqlValueView::Null,
            SqlValue::Integer(i) => SqlValueView::Integer(i),
            SqlValue::Text(s) => SqlValueView::Text(s@),
        }
    }
}

/// A statement with the values of its parameters, in order.
#[derive(Debug)]
pub struct Statement {
    pub sql: &'static str,
    pub params: Vec<SqlValue>,
}

/// The values of the parameters.
pub open spec fn param_views(params: Seq<SqlValue>) -> Seq<SqlValueView> {
    params.map_values(|p: SqlValue| p@)
}

/// Whether a statement is the given one, with the given values.
pub open spec fn is_statement(s: Statement, sql: Seq<char>, params: Seq<SqlValueView>) -> bool {
    s.sql@ == sql && param_views(s.params@) == params
}

/// The statements that create the table and the index, where they are not there yet.
pub open spec fn schema_sql() -> Seq<char> {
    "CREATE TABLE IF NOT EXISTS backups (
    id            INTEGER PRIMARY KEY AUTOINCREMENT,
    original_path TEXT    NOT NULL,
    backup_path   TEXT    NOT NULL,
    original_ext  TEXT    NOT NULL,
    new_ext       TEXT,
    event_time    INTEGER NOT NULL,
    restored      INTEGER NOT NULL DEFAULT 0
);
CREATE UNIQUE INDEX IF NOT EXISTS idx_original_path
    ON backups(original_path) WHERE restored = 0;
"@
}

/// The database of backups: where it lies below the data directory, and what it is set up with.
pub struct Db {
    /// The directory of the backup files.
    pub backups: &'static str,
    /// The file of the database.
    pub file: &'static str,
    /// The statements that are executed when it is opened.
    pub schema: &'static str,
}

impl Db {
    /// The database, with what is needed to open it.
    pub fn open() -> (res: Db)
        ensures
            res.backups@ == "backups"@,
            res.file@ == "PowerEXT.db"@,
            res.schema@ == schema_sql(),
    {
        Db {
            backups: "backups",
            file: "PowerEXT.db",
            schema: "CREATE TABLE IF NOT EXISTS backups (
    id            INTEGER PRIMARY KEY AUTOINCREMENT,
    original_path TEXT    NOT NULL,
    backup_path   TEXT    NOT NULL,
    original_ext  TEXT    NOT NULL,
    new_ext       TEXT,
    event_time    INTEGER NOT NULL,
    restored      INTEGER NOT NULL DEFAULT 0
);
CREATE UNIQUE INDEX IF NOT EXISTS idx_original_path
    ON backups(original_path) WHERE restored = 0;
",
        }
    }

    /// The query for the active record of a path: its number, the path of the backup file and
    /// the original extension.
    pub fn find_active_backup(&self, path: &str) -> (res: Statement)
        ensures
            is_statement(
                res,
                "SELECT id, backup_path, original_ext FROM backups WHERE original_path = ?1 AND restored = 0"@,
                seq![SqlValueView::Text(path@)],
            ),
    {
        let mut params: Vec<SqlValue> = Vec::new();
        params.push(SqlValue::Text(path.to_owned()));
        assert(param_views(params@) =~= seq![SqlValueView::Text(path@)]);
        Statement {
            sql:
                "SELECT id, backup_path, original_ext FROM backups WHERE original_path = ?1 AND restored = 0",
            params,
        }
    }

    /// Records a backup made at the given time, in seconds since 1970. It replaces the active
    /// record of the path, if there is one.
    pub fn insert_backup(
        &self,
        original: &str,
        backup: &str,
        orig_ext: &str,
        new_ext: Option<&str>,
        secs: u64,
    ) -> (res: Statement)
        ensures
            is_statement(
                res,
                "INSERT OR REPLACE INTO backups (original_path, backup_path, original_ext, new_ext, event_time) VALUES (?1,?2,?3,?4,?5)"@,
                seq![
                    SqlValueView::Text(original@),
                    SqlValueView::Text(backup@),
                    SqlValueView::Text(orig_ext@),
                    match new_ext {
                        Some(ext) => SqlValueView::Text(ext@),
                        None => SqlValueView::Null,
                    },
                    SqlValueView::Integer(secs as i64),
                ],
            ),
    {
        let mut params: Vec<SqlValue> = Vec::new();
        params.push(SqlValue::Text(original.to_owned()));
        params.push(SqlValue::Text(backup.to_owned()));
        params.push(SqlValue::Text(orig_ext.to_owned()));
        params.push(
            match new_ext {
                Some(ext) => SqlValue::Text(ext.to_owned()),
                None => SqlValue::Null,
            },
        );
        params.push(SqlValue::Integer(secs as i64));
        assert(param_views(params@) =~= seq![
            SqlValueView::Text(original@),
            SqlValueView::Text(backup@),
            SqlValueView::Text(orig_ext@),
            match new_ext {
                Some(ext) => SqlValueView::Text(ext@),
                None => SqlValueView::Null,
            },
            SqlValueView::Integer(secs as i64),
        ]);
        Statement {
            sql:
                "INSERT OR REPLACE INTO backups (original_path, backup_path, original_ext, new_ext, event_time) VALUES (?1,?2,?3,?4,?5)",
            params,
        }
    }

    /// Sets the new extension in the active record of a path.
    pub fn set_new_ext(&self, original: &str, new_ext: &str) -> (res: Statement)
        ensures
            is_statement(
                res,
                "UPDATE backups SET new_ext = ?1 WHERE original_path = ?2 AND restored = 0"@,
                seq![SqlValueView::Text(new_ext@), SqlValueView::Text(original@)],
            ),
    {
        let mut params: Vec<SqlValue> = Vec::new();
        params.push(SqlValue::Text(new_ext.to_owned()));
        params.push(SqlValue::Text(original.to_owned()));
        assert(param_views(params@) =~= seq![
            SqlValueView::Text(new_ext@),
            SqlValueView::Text(original@),
        ]);
        Statement {
            sql: "UPDATE backups SET new_ext = ?1 WHERE original_path = ?2 AND restored = 0",
            params,
        }
    }

    /// Marks a record as restored.
    pub fn mark_restored(&self, id: i64) -> (res: Statement)
        ensures
            is_statement(
                res,
                "UPDATE backups SET restored = 1 WHERE id = ?1"@,
                seq![SqlValueView::Integer(id)],
            ),
    {
        let mut params: Vec<SqlValue> = Vec::new();
        params.push(SqlValue::Integer(id));
        assert(param_views(params@) =~= seq![SqlValueView::Integer(id)]);
        Statement { sql: "UPDATE backups SET restored = 1 WHERE id = ?1", params }
    }
}

/// A statement is the given one just where its text and the values of all its parameters are, in
/// order.
pub proof fn law_a_statement_is_its_text_and_values(
    s: Statement,
    sql: Seq<char>,
    params: Seq<SqlValueView>,
)
    ensures
        is_statement(s, sql, params) <==> {
            &&& s.sql@ == sql
            &&& s.params@.len() == params.len()
            &&& forall|i: int|
                0 <= i < params.len() ==> match #[trigger] s.params@[i] {
                    SqlValue::Null => params[i] == SqlValueView::Null,
                    SqlValue::Integer(n) => params[i] == SqlValueView::Integer(n),
                    SqlValue::Text(t) => params[i] == SqlValueView::Text(t@),
                }
        },
{
    if s.params@.len() == params.len() && (forall|i: int|
        0 <= i < params.len() ==> match #[trigger] s.params@[i] {
            SqlValue::Null => params[i] == SqlValueView::Null,
            SqlValue::Integer(n) => params[i] == SqlValueView::Integer(n),
            SqlValue::Text(t) => params[i] == SqlValueView::Text(t@),
        }) {
        assert(param_views(s.params@) =~= params);
    }
    if param_views(s.params@) == params {
        assert forall|i: int| 0 <= i < params.len() implies match #[trigger] s.params@[i] {
            SqlValue::Null => params[i] == SqlValueView::Null,
            SqlValue::Integer(n) => params[i] == SqlValueView::Integer(n),
            SqlValue::Text(t) => params[i] == SqlValueView::Text(t@),
        } by {
            assert(param_views(s.params@)[i] == s.params@[i]@);
        }
    }
}

/// The database is set up with an index that keeps a path from having two active records.
pub proof fn law_the_schema_keeps_records_unique() -> (r: (Seq<char>, Seq<char>))
    ensures
        schema_sql() == r.0
            + "CREATE UNIQUE INDEX IF NOT EXISTS idx_original_path\n    ON backups(original_path) WHERE restored = 0;"@
            + r.1,
{
    let s = schema_sql();
    reveal_strlit(
        "CREATE TABLE IF NOT EXISTS backups (
    id            INTEGER PRIMARY KEY AUTOINCREMENT,
    original_path TEXT    NOT NULL,
    backup_path   TEXT    NOT NULL,
    original_ext  TEXT    NOT NULL,
    new_ext       TEXT,
    event_time    INTEGER NOT NULL,
    restored      INTEGER NOT NULL DEFAULT 0
);
CREATE UNIQUE INDEX IF NOT EXISTS idx_original_path
    ON backups(original_path) WHERE restored = 0;
",
    );
    reveal_strlit(
        "CREATE UNIQUE INDEX IF NOT EXISTS idx_original_path\n    ON backups(original_path) WHERE restored = 0;",
    );
    let index =
        "CREATE UNIQUE INDEX IF NOT EXISTS idx_original_path\n    ON backups(original_path) WHERE restored = 0;"@;
    let n = s.len() - 1;
    let a = s.take(n - index.len());
    assert(s =~= a + index + s.skip(n));
    (a, s.skip(n))
}

} // verus!
