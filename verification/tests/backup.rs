use rusqlite::Connection;
use y2m::api::{ApiError, StorageError};
use y2m::backup::{
    add_column_if_missing, backup_accepted, backup_database, backup_disposition, backup_file,
    backup_valid,
    integrity_holds, restore_backup, restore_database_is_compatible, BackupFailure,
    CompatibilityCheck, Finding, DEFAULT_ADMIN_USERNAME,
};

/// Answers the questions of a check from a database.
fn check(connection: &Connection) -> bool {
    let mut check = restore_database_is_compatible();
    loop {
        let finding = match check {
            CompatibilityCheck::Verdict(verdict) => return verdict,
            CompatibilityCheck::Table(table) => Finding::Answer(
                connection
                    .query_row(
                        "SELECT EXISTS(SELECT 1 FROM sqlite_master WHERE type='table' AND name=?1)",
                        [table.name()],
                        |row| row.get(0),
                    )
                    .unwrap(),
            ),
            CompatibilityCheck::Columns(table) => {
                let mut statement = connection
                    .prepare("SELECT name FROM pragma_table_info(?1)")
                    .unwrap();
                let columns = statement
                    .query_map([table.name()], |row| row.get::<_, String>(0))
                    .unwrap()
                    .map(|name| name.unwrap())
                    .collect();
                Finding::Columns(columns)
            }
            CompatibilityCheck::Admin => Finding::Answer(
                connection
                    .query_row("SELECT EXISTS(SELECT 1 FROM users WHERE is_admin=1)", [], |row| {
                        row.get(0)
                    })
                    .unwrap(),
            ),
            CompatibilityCheck::DefaultName => Finding::Answer(
                connection
                    .query_row(
                        "SELECT EXISTS(SELECT 1 FROM users WHERE username=?1)",
                        [DEFAULT_ADMIN_USERNAME],
                        |row| row.get(0),
                    )
                    .unwrap(),
            ),
        };
        check = check.next(finding);
    }
}

#[test]
fn compatible_restore_schema_is_accepted() {
    let connection = Connection::open_in_memory().unwrap();
    connection
        .execute_batch(
            "CREATE TABLE users (id INTEGER PRIMARY KEY, username TEXT, password_hash TEXT, created_at INTEGER);
             CREATE TABLE server_settings (key TEXT PRIMARY KEY, value TEXT);
             CREATE TABLE rooms (id INTEGER PRIMARY KEY, code TEXT, name TEXT, owner_id INTEGER, created_at INTEGER);
             CREATE TABLE room_members (room_id INTEGER, user_id INTEGER);
             CREATE TABLE messages (id INTEGER PRIMARY KEY, room_id INTEGER, user_id INTEGER, text TEXT, created_at INTEGER);",
        )
        .unwrap();
    assert!(check(&connection));
}

#[test]
fn incompatible_restore_schema_is_rejected() {
    let connection = Connection::open_in_memory().unwrap();
    connection
        .execute_batch("CREATE TABLE users (id INTEGER PRIMARY KEY, name TEXT);")
        .unwrap();
    assert!(!check(&connection));
}

#[test]
fn restore_rejects_default_admin_name_conflict_without_admin() {
    let connection = Connection::open_in_memory().unwrap();
    connection
        .execute_batch(
            "CREATE TABLE users (id INTEGER PRIMARY KEY, username TEXT, password_hash TEXT, created_at INTEGER, is_admin INTEGER DEFAULT 0);
             INSERT INTO users(username,password_hash,created_at,is_admin) VALUES('井水玉藻','x',0,0);",
        )
        .unwrap();
    assert!(!check(&connection));
}

#[test]
fn a_backup_with_an_administrator_may_use_the_default_name() {
    let connection = Connection::open_in_memory().unwrap();
    connection
        .execute_batch(
            "CREATE TABLE users (id INTEGER PRIMARY KEY, username TEXT, password_hash TEXT, created_at INTEGER, is_admin INTEGER DEFAULT 0);
             INSERT INTO users(username,password_hash,created_at,is_admin) VALUES('井水玉藻','x',0,1);",
        )
        .unwrap();
    assert!(check(&connection));
}

#[test]
fn a_default_name_without_marks_is_a_conflict() {
    let connection = Connection::open_in_memory().unwrap();
    connection
        .execute_batch(
            "CREATE TABLE users (id INTEGER PRIMARY KEY, username TEXT, password_hash TEXT, created_at INTEGER);
             INSERT INTO users(username,password_hash,created_at) VALUES('井水玉藻','x',0);",
        )
        .unwrap();
    assert!(!check(&connection));
}

#[test]
fn missing_tables_are_made_later() {
    assert!(check(&Connection::open_in_memory().unwrap()));
}

#[test]
fn every_table_must_have_its_columns() {
    for table in [
        "CREATE TABLE server_settings (key TEXT)",
        "CREATE TABLE rooms (id INTEGER, code TEXT, name TEXT, created_at INTEGER)",
        "CREATE TABLE room_members (room_id INTEGER)",
        "CREATE TABLE messages (id INTEGER, room_id INTEGER, user_id INTEGER, text TEXT)",
    ] {
        let connection = Connection::open_in_memory().unwrap();
        connection.execute_batch(table).unwrap();
        assert!(!check(&connection), "{table}");
    }
}

#[test]
fn a_finding_that_was_not_asked_for_changes_nothing() {
    let begin = restore_database_is_compatible();
    assert_eq!(begin.next(Finding::Columns(Vec::new())), begin);
    let columns = begin.next(Finding::Answer(true));
    assert_eq!(columns.next(Finding::Answer(true)), columns);
}

#[test]
fn backups_start_as_databases_do() {
    assert_eq!(restore_backup(b"SQLite format 3\x00 and the rest"), Ok(()));
    assert_eq!(restore_backup(b"SQLite format 3\x00"), Ok(()));
    assert_eq!(restore_backup(b"SQLite format 3"), Err(ApiError::NotADatabase));
    assert_eq!(restore_backup(b"SQLite format 4\x00"), Err(ApiError::NotADatabase));
    assert_eq!(restore_backup(b""), Err(ApiError::NotADatabase));
}

#[test]
fn only_a_sound_and_compatible_backup_is_accepted() {
    assert!(integrity_holds("ok"));
    assert!(!integrity_holds("*** in database main ***"));
    assert!(backup_valid("ok", true));
    assert!(!backup_valid("ok", false));
    assert!(!backup_valid("OK", true));
    assert_eq!(backup_accepted(Ok(true)), Ok(()));
    assert_eq!(backup_accepted(Ok(false)), Err(ApiError::UnusableBackup));
    assert_eq!(backup_accepted(Err(StorageError::Other)), Err(ApiError::UnusableBackup));
}

#[test]
fn backups_are_named_after_their_time() {
    assert_eq!(backup_file(1_700_000_000, "abc"), "y2m-backup-1700000000-abc.sqlite3");
    assert_eq!(
        backup_disposition(1_700_000_000),
        "attachment; filename=\"y2m-backup-1700000000.sqlite3\""
    );
    assert_eq!(backup_file(-5, ""), "y2m-backup--5-.sqlite3");
}

#[test]
fn a_backup_that_cannot_be_made_is_an_error() {
    assert_eq!(backup_database(Ok(())), Ok(()));
    assert_eq!(backup_database(Err(BackupFailure::Directory)), Err(ApiError::Internal));
    assert_eq!(backup_database(Err(BackupFailure::Copy)), Err(ApiError::Database));
    assert_eq!(backup_database(Err(BackupFailure::Read)), Err(ApiError::Internal));
}

#[test]
fn a_column_that_is_there_is_no_error() {
    let connection = Connection::open_in_memory().unwrap();
    connection.execute_batch("CREATE TABLE rooms (id INTEGER)").unwrap();
    let add = "ALTER TABLE rooms ADD COLUMN is_system INTEGER NOT NULL DEFAULT 0";
    assert!(connection.execute(add, []).is_ok());
    assert!(add_column_if_missing(None));
    let again = connection.execute(add, []).unwrap_err().to_string();
    assert!(add_column_if_missing(Some(&again)));
    let missing = connection
        .execute("ALTER TABLE users ADD COLUMN is_admin INTEGER", [])
        .unwrap_err()
        .to_string();
    assert!(!add_column_if_missing(Some(&missing)));
}
