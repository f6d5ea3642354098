//! Backups of the database: what they are called, and which ones the server can
//! run on.

use crate::api::{ApiError, StorageError};
use crate::text::{contains_text, decimal, occurs_in, push_decimal, same_text};
use vstd::prelude::*;
use vstd::string::*;

verus! {

/// The name of the account that the server makes where it has no administrator.
pub const DEFAULT_ADMIN_USERNAME: &'static str = "井水玉藻";

/// What every SQLite file starts with: `SQLite format 3` and a zero byte.
pub open spec fn sqlite_header() -> Seq<u8> {
    seq![
        0x53u8, 0x51, 0x4C, 0x69, 0x74, 0x65, 0x20, 0x66, 0x6F, 0x72, 0x6D, 0x61, 0x74, 0x20, 0x33,
        0x00,
    ]
}

/// A file that starts as a SQLite file does.
pub open spec fn is_sqlite_file(bytes: Seq<u8>) -> bool {
    sqlite_header().is_prefix_of(bytes)
}

/// The tables that the server works with.
#[derive(Clone, Copy, PartialEq, Eq, Structural, Debug)]
pub enum RequiredTable {
    Users,
    ServerSettings,
    Rooms,
    RoomMembers,
    Messages,
}

/// The name of a table.
pub open spec fn table_name(table: RequiredTable) -> Seq<char> {
    match table {
        RequiredTable::Users => "users"@,
        RequiredTable::ServerSettings => "server_settings"@,
        RequiredTable::Rooms => "rooms"@,
        RequiredTable::RoomMembers => "room_members"@,
        RequiredTable::Messages => "messages"@,
    }
}

/// The columns that a table must have.
pub open spec fn required_columns(table: RequiredTable) -> Set<Seq<char>> {
    match table {
        RequiredTable::Users => set!["id"@, "username"@, "password_hash"@, "created_at"@],
        RequiredTable::ServerSettings => set!["key"@, "value"@],
        RequiredTable::Rooms => set!["id"@, "code"@, "name"@, "owner_id"@, "created_at"@],
        RequiredTable::RoomMembers => set!["room_id"@, "user_id"@],
        RequiredTable::Messages => set!["id"@, "room_id"@, "user_id"@, "text"@, "created_at"@],
    }
}

/// What the server finds in a backup.
pub ghost struct BackupFacts {
    /// The tables that are there, with their columns.
    pub columns: Map<Seq<char>, Set<Seq<char>>>,
    /// A user is marked as administrator.
    pub has_admin: bool,
    /// A user bears the name of the account that the server makes.
    pub default_name_taken: bool,
}

/// Every table that is there has the columns that it must have.
pub open spec fn columns_fit(facts: BackupFacts) -> bool {
    forall|table: RequiredTable|
        facts.columns.contains_key(#[trigger] table_name(table)) ==> required_columns(
            table,
        ).subset_of(facts.columns[table_name(table)])
}

/// The server will find an administrator, or can make one: the users are not
/// there yet, one of them is marked, or the name of the new account is free.
pub open spec fn admin_possible(facts: BackupFacts) -> bool {
    ||| !facts.columns.contains_key("users"@)
    ||| facts.columns["users"@].contains("is_admin"@) && facts.has_admin
    ||| !facts.default_name_taken
}

/// The server can run on the backup.
pub open spec fn compatible(facts: BackupFacts) -> bool {
    columns_fit(facts) && admin_possible(facts)
}

/// How far the check of a backup has come.
#[derive(Clone, Copy, PartialEq, Eq, Structural, Debug)]
pub enum CompatibilityCheck {
    /// Is the table there?
    Table(RequiredTable),
    /// Which columns does it have?
    Columns(RequiredTable),
    /// Is a user marked as administrator?
    Admin,
    /// Does a user bear the name of the account that the server makes?
    DefaultName,
    /// Can the server run on it?
    Verdict(bool),
}

/// What was found in the backup.
pub enum Finding {
    /// The answer to a question.
    Answer(bool),
    /// The names of a table's columns.
    Columns(Vec<String>),
}

/// The names of the columns.
pub open spec fn column_names(columns: Seq<String>) -> Set<Seq<char>> {
    columns.map_values(|name: String| name@).to_set()
}

/// The table that is looked at next.
pub open spec fn after_table(table: RequiredTable) -> CompatibilityCheck {
    match table {
        RequiredTable::Users => CompatibilityCheck::Table(RequiredTable::ServerSettings),
        RequiredTable::ServerSettings => CompatibilityCheck::Table(RequiredTable::Rooms),
        RequiredTable::Rooms => CompatibilityCheck::Table(RequiredTable::RoomMembers),
        RequiredTable::RoomMembers => CompatibilityCheck::Table(RequiredTable::Messages),
        RequiredTable::Messages => CompatibilityCheck::Verdict(true),
    }
}

/// How the check goes on once the columns of a table are known.
pub open spec fn after_columns(table: RequiredTable, names: Set<Seq<char>>) -> CompatibilityCheck {
    if !required_columns(table).subset_of(names) {
        CompatibilityCheck::Verdict(false)
    } else if table == RequiredTable::Users {
        if names.contains("is_admin"@) {
            CompatibilityCheck::Admin
        } else {
            CompatibilityCheck::DefaultName
        }
    } else {
        after_table(table)
    }
}

/// How the check goes on with a finding. A finding that answers another question
/// changes nothing.
pub open spec fn check_after(check: CompatibilityCheck, finding: Finding) -> CompatibilityCheck {
    match (check, finding) {
        (CompatibilityCheck::Table(table), Finding::Answer(yes)) => if yes {
            CompatibilityCheck::Columns(table)
        } else {
            after_table(table)
        },
        (CompatibilityCheck::Columns(table), Finding::Columns(columns)) => after_columns(
            table,
            column_names(columns@),
        ),
        (CompatibilityCheck::Admin, Finding::Answer(yes)) => if yes {
            after_table(RequiredTable::Users)
        } else {
            CompatibilityCheck::DefaultName
        },
        (CompatibilityCheck::DefaultName, Finding::Answer(yes)) => if yes {
            CompatibilityCheck::Verdict(false)
        } else {
            after_table(RequiredTable::Users)
        },
        _ => check,
    }
}

impl RequiredTable {
    /// The name of the table.
    pub fn name(&self) -> (r: &'static str)
        ensures
            r@ == table_name(*self),
    {
        match self {
            RequiredTable::Users => "users",
            RequiredTable::ServerSettings => "server_settings",
            RequiredTable::Rooms => "rooms",
            RequiredTable::RoomMembers => "room_members",
            RequiredTable::Messages => "messages",
        }
    }
}

/// Whether a column of the name is there.
fn has_column(columns: &Vec<String>, name: &str) -> (r: bool)
    ensures
        r == column_names(columns@).contains(name@),
{
    let ghost names = columns@.map_values(|name: String| name@);
    for i in 0..columns.len()
        invariant
            names == columns@.map_values(|name: String| name@),
            forall|j: int| 0 <= j < i ==> #[trigger] names[j] != name@,
    {
        if same_text(columns[i].as_str(), name) {
            assert(names[i as int] == name@);
            assert(names.contains(name@));
            return true;
        }
    }
    assert(!names.contains(name@));
    false
}

/// Whether the columns that the table must have are there.
fn has_required_columns(columns: &Vec<String>, table: RequiredTable) -> (r: bool)
    ensures
        r == required_columns(table).subset_of(column_names(columns@)),
{
    let ghost names = column_names(columns@);
    match table {
        RequiredTable::Users => {
            assert(required_columns(table).subset_of(names) <==> names.contains("id"@)
                && names.contains("username"@) && names.contains("password_hash"@)
                && names.contains("created_at"@)) by {
                assert(required_columns(table).contains("id"@));
                assert(required_columns(table).contains("username"@));
                assert(required_columns(table).contains("password_hash"@));
                assert(required_columns(table).contains("created_at"@));
            }
            has_column(columns, "id") && has_column(columns, "username") && has_column(
                columns,
                "password_hash",
            ) && has_column(columns, "created_at")
        },
        RequiredTable::ServerSettings => {
            assert(required_columns(table).subset_of(names) <==> names.contains("key"@)
                && names.contains("value"@)) by {
                assert(required_columns(table).contains("key"@));
                assert(required_columns(table).contains("value"@));
            }
            has_column(columns, "key") && has_column(columns, "value")
        },
        RequiredTable::Rooms => {
            assert(required_columns(table).subset_of(names) <==> names.contains("id"@)
                && names.contains("code"@) && names.contains("name"@) && names.contains("owner_id"@)
                && names.contains("created_at"@)) by {
                assert(required_columns(table).contains("id"@));
                assert(required_columns(table).contains("code"@));
                assert(required_columns(table).contains("name"@));
                assert(required_columns(table).contains("owner_id"@));
                assert(required_columns(table).contains("created_at"@));
            }
            has_column(columns, "id") && has_column(columns, "code") && has_column(columns, "name")
                && has_column(columns, "owner_id") && has_column(columns, "created_at")
        },
        RequiredTable::RoomMembers => {
            assert(required_columns(table).subset_of(names) <==> names.contains("room_id"@)
                && names.contains("user_id"@)) by {
                assert(required_columns(table).contains("room_id"@));
                assert(required_columns(table).contains("user_id"@));
            }
            has_column(columns, "room_id") && has_column(columns, "user_id")
        },
        RequiredTable::Messages => {
            assert(required_columns(table).subset_of(names) <==> names.contains("id"@)
                && names.contains("room_id"@) && names.contains("user_id"@) && names.contains(
                "text"@,
            ) && names.contains("created_at"@)) by {
                assert(required_columns(table).contains("id"@));
                assert(required_columns(table).contains("room_id"@));
                assert(required_columns(table).contains("user_id"@));
                assert(required_columns(table).contains("text"@));
                assert(required_columns(table).contains("created_at"@));
            }
            has_column(columns, "id") && has_column(columns, "room_id") && has_column(
                columns,
                "user_id",
            ) && has_column(columns, "text") && has_column(columns, "created_at")
        },
    }
}

fn next_table(table: RequiredTable) -> (r: CompatibilityCheck)
    ensures
        r == after_table(table),
{
    match table {
        RequiredTable::Users => CompatibilityCheck::Table(RequiredTable::ServerSettings),
        RequiredTable::ServerSettings => CompatibilityCheck::Table(RequiredTable::Rooms),
        RequiredTable::Rooms => CompatibilityCheck::Table(RequiredTable::RoomMembers),
        RequiredTable::RoomMembers => CompatibilityCheck::Table(RequiredTable::Messages),
        RequiredTable::Messages => CompatibilityCheck::Verdict(true),
    }
}

/// A check of a backup that is about to begin. It goes on by answering what is
/// asked, until there is a verdict.
pub fn restore_database_is_compatible() -> (r: CompatibilityCheck)
    ensures
        r == CompatibilityCheck::Table(RequiredTable::Users),
{
    CompatibilityCheck::Table(RequiredTable::Users)
}

impl CompatibilityCheck {
    /// How the check goes on with the finding.
    pub fn next(&self, finding: Finding) -> (r: CompatibilityCheck)
        ensures
            r == check_after(*self, finding),
    {
        match (*self, finding) {
            (CompatibilityCheck::Table(table), Finding::Answer(yes)) => if yes {
                CompatibilityCheck::Columns(table)
            } else {
                next_table(table)
            },
            (CompatibilityCheck::Columns(table), Finding::Columns(columns)) => {
                if !has_required_columns(&columns, table) {
                    CompatibilityCheck::Verdict(false)
                } else {
                    match table {
                        RequiredTable::Users => if has_column(&columns, "is_admin") {
                            CompatibilityCheck::Admin
                        } else {
                            CompatibilityCheck::DefaultName
                        },
                        _ => next_table(table),
                    }
                }
            },
            (CompatibilityCheck::Admin, Finding::Answer(yes)) => if yes {
                next_table(RequiredTable::Users)
            } else {
                CompatibilityCheck::DefaultName
            },
            (CompatibilityCheck::DefaultName, Finding::Answer(yes)) => if yes {
                CompatibilityCheck::Verdict(false)
            } else {
                next_table(RequiredTable::Users)
            },
            _ => *self,
        }
    }
}

/// The finding is what the backup holds of what is asked.
pub open spec fn true_finding(
    facts: BackupFacts,
    check: CompatibilityCheck,
    finding: Finding,
) -> bool {
    match (check, finding) {
        (CompatibilityCheck::Table(table), Finding::Answer(yes)) => yes
            == facts.columns.contains_key(table_name(table)),
        (CompatibilityCheck::Columns(table), Finding::Columns(columns)) => column_names(columns@)
            == facts.columns[table_name(table)],
        (CompatibilityCheck::Admin, Finding::Answer(yes)) => yes == facts.has_admin,
        (CompatibilityCheck::DefaultName, Finding::Answer(yes)) => yes == facts.default_name_taken,
        _ => false,
    }
}

/// The check after the findings.
pub open spec fn check_reached(findings: Seq<Finding>) -> CompatibilityCheck
    decreases findings.len(),
{
    if findings.len() == 0 {
        CompatibilityCheck::Table(RequiredTable::Users)
    } else {
        check_after(check_reached(findings.drop_last()), findings.last())
    }
}

/// Every finding is true of the backup, and answers what is asked.
pub open spec fn true_findings(facts: BackupFacts, findings: Seq<Finding>) -> bool
    decreases findings.len(),
{
    findings.len() == 0 || {
        &&& true_findings(facts, findings.drop_last())
        &&& true_finding(facts, check_reached(findings.drop_last()), findings.last())
    }
}

/// The table's columns fit, if it is there.
spec fn fits(facts: BackupFacts, table: RequiredTable) -> bool {
    facts.columns.contains_key(table_name(table)) ==> required_columns(table).subset_of(
        facts.columns[table_name(table)],
    )
}

/// What is known at a point of the check.
spec fn known(facts: BackupFacts, check: CompatibilityCheck) -> bool {
    let users = fits(facts, RequiredTable::Users) && admin_possible(facts);
    let settings = users && fits(facts, RequiredTable::ServerSettings);
    let rooms = settings && fits(facts, RequiredTable::Rooms);
    let members = rooms && fits(facts, RequiredTable::RoomMembers);
    match check {
        CompatibilityCheck::Table(table) | CompatibilityCheck::Columns(table) => {
            &&& check is Columns ==> facts.columns.contains_key(table_name(table))
            &&& match table {
                RequiredTable::Users => true,
                RequiredTable::ServerSettings => users,
                RequiredTable::Rooms => settings,
                RequiredTable::RoomMembers => rooms,
                RequiredTable::Messages => members,
            }
        },
        CompatibilityCheck::Admin => {
            &&& facts.columns.contains_key("users"@)
            &&& fits(facts, RequiredTable::Users)
            &&& facts.columns["users"@].contains("is_admin"@)
        },
        CompatibilityCheck::DefaultName => {
            &&& facts.columns.contains_key("users"@)
            &&& fits(facts, RequiredTable::Users)
            &&& !(facts.columns["users"@].contains("is_admin"@) && facts.has_admin)
        },
        CompatibilityCheck::Verdict(verdict) => verdict == compatible(facts),
    }
}

proof fn lemma_known_step(facts: BackupFacts, check: CompatibilityCheck, finding: Finding)
    requires
        known(facts, check),
        true_finding(facts, check, finding),
    ensures
        known(facts, check_after(check, finding)),
{
    let next = check_after(check, finding);
    if next == CompatibilityCheck::Verdict(true) {
        assert forall|table: RequiredTable|
            facts.columns.contains_key(#[trigger] table_name(table)) implies required_columns(
            table,
        ).subset_of(facts.columns[table_name(table)]) by {
            assert(fits(facts, table)) by {
                match table {
                    RequiredTable::Users => {},
                    RequiredTable::ServerSettings => {},
                    RequiredTable::Rooms => {},
                    RequiredTable::RoomMembers => {},
                    RequiredTable::Messages => {},
                }
            }
        }
    }
    if next == CompatibilityCheck::Verdict(false) {
        match check {
            CompatibilityCheck::Columns(table) => {
                assert(facts.columns.contains_key(table_name(table)));
                assert(!columns_fit(facts));
            },
            _ => {},
        }
    }
}

/// What was asked for last leaves nothing unsaid: where the findings are true of
/// the backup, a verdict says whether the server can run on it.
pub proof fn law_verdict_is_compatibility(facts: BackupFacts, findings: Seq<Finding>)
    requires
        true_findings(facts, findings),
    ensures
        check_reached(findings) matches CompatibilityCheck::Verdict(verdict) ==> verdict
            == compatible(facts),
{
    lemma_known(facts, findings);
}

proof fn lemma_known(facts: BackupFacts, findings: Seq<Finding>)
    requires
        true_findings(facts, findings),
    ensures
        known(facts, check_reached(findings)),
    decreases findings.len(),
{
    if findings.len() > 0 {
        lemma_known(facts, findings.drop_last());
        lemma_known_step(facts, check_reached(findings.drop_last()), findings.last());
    }
}

/// An upper bound on the questions that are left.
pub open spec fn questions_left(check: CompatibilityCheck) -> nat {
    match check {
        CompatibilityCheck::Table(RequiredTable::Users) => 12,
        CompatibilityCheck::Columns(RequiredTable::Users) => 11,
        CompatibilityCheck::Admin => 10,
        CompatibilityCheck::DefaultName => 9,
        CompatibilityCheck::Table(RequiredTable::ServerSettings) => 8,
        CompatibilityCheck::Columns(RequiredTable::ServerSettings) => 7,
        CompatibilityCheck::Table(RequiredTable::Rooms) => 6,
        CompatibilityCheck::Columns(RequiredTable::Rooms) => 5,
        CompatibilityCheck::Table(RequiredTable::RoomMembers) => 4,
        CompatibilityCheck::Columns(RequiredTable::RoomMembers) => 3,
        CompatibilityCheck::Table(RequiredTable::Messages) => 2,
        CompatibilityCheck::Columns(RequiredTable::Messages) => 1,
        CompatibilityCheck::Verdict(_) => 0,
    }
}

/// A check whose questions are answered comes to a verdict, after twelve of them
/// at the latest.
pub proof fn law_check_ends(facts: BackupFacts, findings: Seq<Finding>)
    requires
        true_findings(facts, findings),
    ensures
        findings.len() + questions_left(check_reached(findings)) <= 12,
        findings.len() == 12 ==> check_reached(findings) is Verdict,
    decreases findings.len(),
{
    if findings.len() > 0 {
        law_check_ends(facts, findings.drop_last());
    }
}

/// Whether the bytes can be a database: the file starts as a SQLite file does.
pub fn restore_backup(bytes: &[u8]) -> (r: Result<(), ApiError>)
    ensures
        r == if is_sqlite_file(bytes@) {
            Ok::<(), ApiError>(())
        } else {
            Err(ApiError::NotADatabase)
        },
{
    let header: [u8; 16] = [
        0x53, 0x51, 0x4C, 0x69, 0x74, 0x65, 0x20, 0x66, 0x6F, 0x72, 0x6D, 0x61, 0x74, 0x20, 0x33,
        0x00,
    ];
    assert(header@ =~= sqlite_header());
    if bytes.len() < 16 {
        return Err(ApiError::NotADatabase);
    }
    for i in 0..16usize
        invariant
            bytes@.len() >= 16,
            header@ == sqlite_header(),
            forall|j: int| 0 <= j < i ==> #[trigger] header@[j] == bytes@[j],
    {
        if bytes[i] != header[i] {
            assert(sqlite_header()[i as int] != bytes@[i as int]);
            return Err(ApiError::NotADatabase);
        }
    }
    Ok(())
}

/// Whether SQLite's own check of a file found nothing wrong.
pub fn integrity_holds(report: &str) -> (r: bool)
    ensures
        r == (report@ == "ok"@),
{
    same_text(report, "ok")
}

/// Whether a backup that could be read is valid: SQLite's own check found nothing
/// wrong, and the server can run on it.
pub fn backup_valid(report: &str, compatible: bool) -> (r: bool)
    ensures
        r == (report@ == "ok"@ && compatible),
{
    integrity_holds(report) && compatible
}

/// Whether the backup is used: it could be read, and the server can run on it.
pub fn backup_accepted(valid: Result<bool, StorageError>) -> (r: Result<(), ApiError>)
    ensures
        r == if valid == Ok::<bool, StorageError>(true) {
            Ok::<(), ApiError>(())
        } else {
            Err(ApiError::UnusableBackup)
        },
{
    match valid {
        Ok(true) => Ok(()),
        _ => Err(ApiError::UnusableBackup),
    }
}

/// The name under which a backup is written before it is handed out.
pub fn backup_file(stamp: i64, nonce: &str) -> (r: String)
    ensures
        r@ == "y2m-backup-"@ + decimal(stamp as int) + "-"@ + nonce@ + ".sqlite3"@,
{
    let mut name: String = "y2m-backup-".to_owned();
    push_decimal(&mut name, stamp);
    name.append("-");
    name.append(nonce);
    name.append(".sqlite3");
    name
}

/// The `Content-Disposition` text with which a backup is handed out.
pub fn backup_disposition(stamp: i64) -> (r: String)
    ensures
        r@ == "attachment; filename=\"y2m-backup-"@ + decimal(stamp as int) + ".sqlite3\""@,
{
    let mut text: String = "attachment; filename=\"y2m-backup-".to_owned();
    push_decimal(&mut text, stamp);
    text.append(".sqlite3\"");
    text
}

/// Where making a backup fails.
#[derive(Clone, Copy, PartialEq, Eq, Structural, Debug)]
pub enum BackupFailure {
    /// There is no place for it.
    Directory,
    /// The database could not be copied.
    Copy,
    /// The copy could not be read.
    Read,
}

/// The refusal where a backup could not be made.
pub fn backup_database(made: Result<(), BackupFailure>) -> (r: Result<(), ApiError>)
    ensures
        r == match made {
            Ok(_) => Ok::<(), ApiError>(()),
            Err(BackupFailure::Copy) => Err(ApiError::Database),
            Err(_) => Err(ApiError::Internal),
        },
{
    match made {
        Ok(_) => Ok(()),
        Err(BackupFailure::Copy) => Err(ApiError::Database),
        Err(_) => Err(ApiError::Internal),
    }
}

/// Whether a table has the column now that it was to be added: it was, or the
/// database says that it was there already.
pub fn add_column_if_missing(error: Option<&str>) -> (r: bool)
    ensures
        r == match error {
            None => true,
            Some(text) => occurs_in("duplicate column name"@, text@),
        },
{
    match error {
        None => true,
        Some(text) => contains_text(text, "duplicate column name"),
    }
}

/// A backup is a SQLite file where it has sixteen bytes or more, of which the first
/// fifteen read `SQLite format 3` and the next is zero. What follows does not matter.
pub proof fn law_sqlite_files(bytes: Seq<u8>)
    ensures
        is_sqlite_file(bytes) <==> bytes.len() >= 16 && (forall|i: int|
            0 <= i < 15 ==> #[trigger] bytes[i] as char == "SQLite format 3"@[i]) && bytes[15] == 0,
{
    reveal_strlit("SQLite format 3");
    let header = sqlite_header();
    assert(header.len() == 16);
    if bytes.len() >= 16 {
        assert(header.is_prefix_of(bytes) <==> forall|i: int|
            0 <= i < 16 ==> #[trigger] bytes[i] == header[i]) by {
            if header.is_prefix_of(bytes) {
                assert forall|i: int| 0 <= i < 16 implies #[trigger] bytes[i] == header[i] by {
                    assert(header == bytes.subrange(0, 16));
                }
            }
            if forall|i: int| 0 <= i < 16 ==> #[trigger] bytes[i] == header[i] {
                assert(header =~= bytes.subrange(0, 16));
            }
        }
        if forall|i: int|
            0 <= i < 15 ==> #[trigger] bytes[i] as char == "SQLite format 3"@[i] {
            assert(bytes[0] as char == 'S' && bytes[1] as char == 'Q' && bytes[2] as char == 'L');
            assert(bytes[3] as char == 'i' && bytes[4] as char == 't' && bytes[5] as char == 'e');
            assert(bytes[6] as char == ' ' && bytes[7] as char == 'f' && bytes[8] as char == 'o');
            assert(bytes[9] as char == 'r' && bytes[10] as char == 'm' && bytes[11] as char == 'a');
            assert(bytes[12] as char == 't' && bytes[13] as char == ' ' && bytes[14] as char == '3');
        }
    }
}

/// A backup that the server can run on has, in each of its tables that the server
/// reads, every column that it reads, and it holds an administrator or leaves the name
/// of the first one free.
pub proof fn law_what_a_backup_must_hold(facts: BackupFacts)
    ensures
        compatible(facts) ==> {
            let columns = facts.columns;
            &&& columns.contains_key("users"@) ==> {
                &&& columns["users"@].contains("id"@)
                &&& columns["users"@].contains("username"@)
                &&& columns["users"@].contains("password_hash"@)
                &&& columns["users"@].contains("created_at"@)
                &&& facts.default_name_taken ==> columns["users"@].contains("is_admin"@)
                    && facts.has_admin
            }
            &&& columns.contains_key("server_settings"@) ==> {
                &&& columns["server_settings"@].contains("key"@)
                &&& columns["server_settings"@].contains("value"@)
            }
            &&& columns.contains_key("rooms"@) ==> {
                &&& columns["rooms"@].contains("id"@)
                &&& columns["rooms"@].contains("code"@)
                &&& columns["rooms"@].contains("name"@)
                &&& columns["rooms"@].contains("owner_id"@)
                &&& columns["rooms"@].contains("created_at"@)
            }
            &&& columns.contains_key("room_members"@) ==> {
                &&& columns["room_members"@].contains("room_id"@)
                &&& columns["room_members"@].contains("user_id"@)
            }
            &&& columns.contains_key("messages"@) ==> {
                &&& columns["messages"@].contains("id"@)
                &&& columns["messages"@].contains("room_id"@)
                &&& columns["messages"@].contains("user_id"@)
                &&& columns["messages"@].contains("text"@)
                &&& columns["messages"@].contains("created_at"@)
            }
        },
{
    if compatible(facts) {
        assert(fits(facts, RequiredTable::Users));
        assert(fits(facts, RequiredTable::ServerSettings));
        assert(fits(facts, RequiredTable::Rooms));
        assert(fits(facts, RequiredTable::RoomMembers));
        assert(fits(facts, RequiredTable::Messages));
        assert(required_columns(RequiredTable::Users).contains("id"@));
        assert(required_columns(RequiredTable::Users).contains("username"@));
        assert(required_columns(RequiredTable::Users).contains("password_hash"@));
        assert(required_columns(RequiredTable::Users).contains("created_at"@));
        assert(required_columns(RequiredTable::ServerSettings).contains("key"@));
        assert(required_columns(RequiredTable::ServerSettings).contains("value"@));
        assert(required_columns(RequiredTable::Rooms).contains("id"@));
        assert(required_columns(RequiredTable::Rooms).contains("code"@));
        assert(required_columns(RequiredTable::Rooms).contains("name"@));
        assert(required_columns(RequiredTable::Rooms).contains("owner_id"@));
        assert(required_columns(RequiredTable::Rooms).contains("created_at"@));
        assert(required_columns(RequiredTable::RoomMembers).contains("room_id"@));
        assert(required_columns(RequiredTable::RoomMembers).contains("user_id"@));
        assert(required_columns(RequiredTable::Messages).contains("id"@));
        assert(required_columns(RequiredTable::Messages).contains("room_id"@));
        assert(required_columns(RequiredTable::Messages).contains("user_id"@));
        assert(required_columns(RequiredTable::Messages).contains("text"@));
        assert(required_columns(RequiredTable::Messages).contains("created_at"@));
    }
}

/// A backup that holds what it must is accepted: more columns, more tables and tables
/// that are missing do no harm.
pub proof fn law_no_more_is_asked_of_a_backup(facts: BackupFacts)
    requires
        facts.columns.contains_key("users"@) ==> set![
            "id"@,
            "username"@,
            "password_hash"@,
            "created_at"@,
        ].subset_of(facts.columns["users"@]),
        facts.columns.contains_key("server_settings"@) ==> set!["key"@, "value"@].subset_of(
            facts.columns["server_settings"@],
        ),
        facts.columns.contains_key("rooms"@) ==> set![
            "id"@,
            "code"@,
            "name"@,
            "owner_id"@,
            "created_at"@,
        ].subset_of(facts.columns["rooms"@]),
        facts.columns.contains_key("room_members"@) ==> set!["room_id"@, "user_id"@].subset_of(
            facts.columns["room_members"@],
        ),
        facts.columns.contains_key("messages"@) ==> set![
            "id"@,
            "room_id"@,
            "user_id"@,
            "text"@,
            "created_at"@,
        ].subset_of(facts.columns["messages"@]),
        facts.columns.contains_key("users"@) && facts.default_name_taken
            ==> facts.columns["users"@].contains("is_admin"@) && facts.has_admin,
    ensures
        compatible(facts),
{
    assert forall|table: RequiredTable|
        facts.columns.contains_key(#[trigger] table_name(table)) implies required_columns(
        table,
    ).subset_of(facts.columns[table_name(table)]) by {
        match table {
            RequiredTable::Users => {},
            RequiredTable::ServerSettings => {},
            RequiredTable::Rooms => {},
            RequiredTable::RoomMembers => {},
            RequiredTable::Messages => {},
        }
    }
}

/// A backup that is offered is accepted exactly where it is a SQLite file, the
/// database reports nothing but `ok` of it and the server can run on it.
pub proof fn law_backups_that_are_accepted(
    bytes: &[u8],
    looked_at: Result<(), ApiError>,
    report: &str,
    fits: bool,
    valid: bool,
    accepted: Result<(), ApiError>,
)
    requires
        call_ensures(restore_backup, (bytes,), looked_at),
        call_ensures(backup_valid, (report, fits), valid),
        call_ensures(backup_accepted, (Ok::<bool, StorageError>(valid),), accepted),
    ensures
        looked_at is Ok <==> bytes@.len() >= 16 && (forall|i: int|
            0 <= i < 15 ==> #[trigger] bytes@[i] as char == "SQLite format 3"@[i]) && bytes@[15]
            == 0,
        looked_at matches Err(error) ==> error == ApiError::NotADatabase,
        accepted is Ok <==> report@ == "ok"@ && fits,
        accepted matches Err(error) ==> error == ApiError::UnusableBackup,
{
    law_sqlite_files(bytes@);
}

/// A backup that could not be read is not accepted.
pub proof fn law_unreadable_backups(error: StorageError, accepted: Result<(), ApiError>)
    requires
        call_ensures(backup_accepted, (Err::<bool, StorageError>(error),), accepted),
    ensures
        accepted == Err::<(), ApiError>(ApiError::UnusableBackup),
{
}

/// The names of backups tell them apart: two made at the same time differ by their
/// nonces, and what is handed out names the time.
pub proof fn law_backups_have_their_names(
    stamp: i64,
    nonce: &str,
    other_nonce: &str,
    file: String,
    other_file: String,
    disposition: String,
)
    requires
        call_ensures(backup_file, (stamp, nonce), file),
        call_ensures(backup_file, (stamp, other_nonce), other_file),
        call_ensures(backup_disposition, (stamp,), disposition),
    ensures
        file@ == "y2m-backup-"@ + decimal(stamp as int) + "-"@ + nonce@ + ".sqlite3"@,
        file@ == other_file@ <==> nonce@ == other_nonce@,
        disposition@ == "attachment; filename=\"y2m-backup-"@ + decimal(stamp as int)
            + ".sqlite3\""@,
{
    let before = "y2m-backup-"@ + decimal(stamp as int) + "-"@;
    if file@ == other_file@ {
        assert(file@.len() == before.len() + nonce@.len() + ".sqlite3"@.len());
        assert(other_file@.len() == before.len() + other_nonce@.len() + ".sqlite3"@.len());
        assert(nonce@ =~= file@.subrange(
            before.len() as int,
            (before.len() + nonce@.len()) as int,
        ));
        assert(other_nonce@ =~= other_file@.subrange(
            before.len() as int,
            (before.len() + other_nonce@.len()) as int,
        ));
    }
}

/// What the making of a backup is answered with: a copy that failed is a failure of
/// the database, and anything else one of the server.
pub proof fn law_answers_to_backups(made: Result<(), BackupFailure>, answer: Result<(), ApiError>)
    requires
        call_ensures(backup_database, (made,), answer),
    ensures
        answer is Ok <==> made is Ok,
        made == Err::<(), BackupFailure>(BackupFailure::Copy) ==> answer == Err::<(), ApiError>(
            ApiError::Database,
        ),
        made == Err::<(), BackupFailure>(BackupFailure::Directory) || made == Err::<
            (),
            BackupFailure,
        >(BackupFailure::Read) ==> answer == Err::<(), ApiError>(ApiError::Internal),
{
}

/// Adding a column has worked where nothing went wrong, or where the column was there
/// already.
pub proof fn law_columns_are_added_once(error: Option<&str>, added: bool)
    requires
        call_ensures(add_column_if_missing, (error,), added),
    ensures
        error is None ==> added,
        error matches Some(text) ==> (added <==> exists|i: int|
            0 <= i <= text@.len() - "duplicate column name"@.len() && #[trigger] text@.subrange(
                i,
                i + "duplicate column name"@.len(),
            ) == "duplicate column name"@),
{
}

} // verus!
