use powerext::db::{BackupRow, Db, SqlValue, Statement};
use rusqlite::types::Value;
use rusqlite::Connection;

fn values(s: &Statement) -> Vec<Value> {
    s.params.iter().map(|p| match p {
        SqlValue::Null => Value::Null,
        SqlValue::Integer(i) => Value::Integer(*i),
        SqlValue::Text(t) => Value::Text(t.clone()),
    }).collect()
}

fn open() -> (Db, Connection) {
    let db = Db::open();
    let conn = Connection::open_in_memory().unwrap();
    conn.execute_batch(db.schema).unwrap();
    (db, conn)
}

fn execute(conn: &Connection, s: &Statement) -> usize {
    conn.execute(s.sql, rusqlite::params_from_iter(values(s))).unwrap()
}

fn find(conn: &Connection, s: &Statement) -> Option<BackupRow> {
    conn.query_row(s.sql, rusqlite::params_from_iter(values(s)), |row| {
        Ok(BackupRow { id: row.get(0)?, backup_path: row.get(1)?, original_ext: row.get(2)? })
    }).ok()
}

#[test]
fn the_database_lies_in_the_data_directory() {
    let db = Db::open();
    assert_eq!(db.backups, "backups");
    assert_eq!(db.file, "PowerEXT.db");
}

#[test]
fn the_schema_can_be_set_up_twice() {
    let (db, conn) = open();
    conn.execute_batch(db.schema).unwrap();
}

#[test]
fn a_backup_is_found_again() {
    let (db, conn) = open();
    assert!(find(&conn, &db.find_active_backup("/d/a.png")).is_none());
    execute(&conn, &db.insert_backup("/d/a.png", "/b/1.png", "png", None, 17));
    let row = find(&conn, &db.find_active_backup("/d/a.png")).unwrap();
    assert_eq!(row.backup_path, "/b/1.png");
    assert_eq!(row.original_ext, "png");
    assert!(find(&conn, &db.find_active_backup("/d/a.jpg")).is_none());
    let (ext, time): (Option<String>, i64) = conn
        .query_row("SELECT new_ext, event_time FROM backups", [], |r| Ok((r.get(0)?, r.get(1)?)))
        .unwrap();
    assert_eq!(ext, None);
    assert_eq!(time, 17);
}

#[test]
fn a_path_has_at_most_one_active_backup() {
    let (db, conn) = open();
    execute(&conn, &db.insert_backup("/d/a.png", "/b/1.png", "png", None, 1));
    execute(&conn, &db.insert_backup("/d/a.png", "/b/2.png", "png", Some("jpg"), 2));
    let row = find(&conn, &db.find_active_backup("/d/a.png")).unwrap();
    assert_eq!(row.backup_path, "/b/2.png");
    let n: i64 = conn.query_row("SELECT COUNT(*) FROM backups", [], |r| r.get(0)).unwrap();
    assert_eq!(n, 1);
}

#[test]
fn a_restored_backup_is_not_active() {
    let (db, conn) = open();
    execute(&conn, &db.insert_backup("/d/a.png", "/b/1.png", "png", None, 1));
    execute(&conn, &db.insert_backup("/d/b.png", "/b/2.png", "png", None, 1));
    let row = find(&conn, &db.find_active_backup("/d/a.png")).unwrap();
    assert_eq!(execute(&conn, &db.mark_restored(row.id)), 1);
    assert!(find(&conn, &db.find_active_backup("/d/a.png")).is_none());
    assert!(find(&conn, &db.find_active_backup("/d/b.png")).is_some());
    // a new backup of the same path is active again, beside the restored one
    execute(&conn, &db.insert_backup("/d/a.png", "/b/3.png", "png", None, 2));
    let row = find(&conn, &db.find_active_backup("/d/a.png")).unwrap();
    assert_eq!(row.backup_path, "/b/3.png");
}

#[test]
fn the_new_extension_is_set_in_the_active_record_only() {
    let (db, conn) = open();
    execute(&conn, &db.insert_backup("/d/a.png", "/b/1.png", "png", None, 1));
    let row = find(&conn, &db.find_active_backup("/d/a.png")).unwrap();
    execute(&conn, &db.mark_restored(row.id));
    execute(&conn, &db.insert_backup("/d/a.png", "/b/2.png", "png", None, 2));
    assert_eq!(execute(&conn, &db.set_new_ext("/d/a.png", "jpg")), 1);
    assert_eq!(execute(&conn, &db.set_new_ext("/d/x.png", "jpg")), 0);
    let exts: Vec<Option<String>> = conn
        .prepare("SELECT new_ext FROM backups ORDER BY id").unwrap()
        .query_map([], |r| r.get(0)).unwrap()
        .map(|r| r.unwrap()).collect();
    assert_eq!(exts, vec![None, Some("jpg".to_string())]);
}

#[test]
fn texts_are_bound_and_not_pasted() {
    let (db, conn) = open();
    let odd = "/d/o'neil\"; DROP TABLE backups; --.png";
    execute(&conn, &db.insert_backup(odd, "/b/1.png", "png", None, 1));
    assert!(find(&conn, &db.find_active_backup(odd)).is_some());
}
