//! Putting a backup in the place of the database when the server starts.
//!
//! The database file may have two sidecar files beside it, the write-ahead log
//! and its index. They belong to the file that they were written for, so they
//! move with it.

use vstd::prelude::*;
use vstd::string::*;

verus! {

/// How often moving the database out of the way is tried.
pub const MOVE_ATTEMPTS: u64 = 50;

/// A file beside the database file.
#[derive(Clone, Copy, PartialEq, Eq, Structural, Debug)]
pub enum Sidecar {
    /// The write-ahead log.
    Wal,
    /// Its index.
    Shm,
}

/// The files that a restore works on.
#[derive(Clone, Copy, PartialEq, Eq, Structural, Debug)]
pub enum Place {
    /// The database.
    Database,
    /// A sidecar of the database.
    DatabaseSidecar(Sidecar),
    /// The database that was moved out of the way.
    Old,
    /// A sidecar of the database that was moved out of the way.
    OldSidecar(Sidecar),
    /// The backup that waits to be applied.
    Backup,
}

/// What a sidecar's path ends in.
pub open spec fn sidecar_suffix(sidecar: Sidecar) -> Seq<char> {
    match sidecar {
        Sidecar::Wal => "-wal"@,
        Sidecar::Shm => "-shm"@,
    }
}

/// What a place's path has behind the path of the database.
pub open spec fn place_suffix(place: Place) -> Seq<char> {
    match place {
        Place::Database => Seq::empty(),
        Place::DatabaseSidecar(sidecar) => sidecar_suffix(sidecar),
        Place::Old => ".old"@,
        Place::OldSidecar(sidecar) => ".old"@ + sidecar_suffix(sidecar),
        Place::Backup => ".restore"@,
    }
}

/// The path of a place.
pub open spec fn path_of(database: Seq<char>, place: Place) -> Seq<char> {
    database + place_suffix(place)
}

/// The path of a place, where the database has the path `database`.
pub fn place_path(database: &str, place: Place) -> (r: String)
    ensures
        r@ == path_of(database@, place),
{
    let mut path: String = database.to_owned();
    match place {
        Place::Database => {},
        Place::DatabaseSidecar(Sidecar::Wal) => {
            path.append("-wal");
        },
        Place::DatabaseSidecar(Sidecar::Shm) => {
            path.append("-shm");
        },
        Place::Old => {
            path.append(".old");
        },
        Place::OldSidecar(Sidecar::Wal) => {
            path.append(".old");
            path.append("-wal");
        },
        Place::OldSidecar(Sidecar::Shm) => {
            path.append(".old");
            path.append("-shm");
        },
        Place::Backup => {
            path.append(".restore");
        },
    }
    assert(path@ =~= path_of(database@, place));
    path
}

/// How a restore ends.
#[derive(Clone, Copy, PartialEq, Eq, Structural, Debug)]
pub enum RestoreOutcome {
    /// No backup waited.
    NothingPending,
    /// The database could not be moved out of the way.
    Occupied,
    /// The backup is the database now.
    Applied,
    /// The backup could not be moved, and the database was put back.
    RolledBack,
}

/// How far a restore has come.
#[derive(Clone, Copy, PartialEq, Eq, Structural, Debug)]
pub enum RestoreStage {
    /// Is there a backup?
    LookForBackup,
    /// What an earlier restore left behind goes.
    ClearOld,
    ClearOldSidecar(Sidecar),
    /// Is there a database to move out of the way?
    LookForDatabase,
    /// So many tries are left to move it.
    MoveAside(u64),
    /// Someone else holds it: time passes before the next try.
    Wait(u64),
    /// It could not be moved: the backup goes.
    GiveUp,
    /// Does the database have this sidecar?
    LookForSidecar(Sidecar),
    MoveSidecar(Sidecar),
    /// A sidecar that cannot be moved goes: it does not fit the backup.
    DropSidecar(Sidecar),
    /// The backup takes the place of the database.
    Apply,
    /// What was moved out of the way goes.
    CleanOld,
    CleanOldSidecar(Sidecar),
    /// The backup could not be moved: is there a database to put back?
    LookForOld,
    PutBack,
    LookForOldSidecar(Sidecar),
    PutBackSidecar(Sidecar),
    /// The backup goes.
    DropBackup,
    /// Nothing is left to do.
    Over(RestoreOutcome),
}

/// What is to be done with the files.
#[derive(Clone, Copy, PartialEq, Eq, Structural, Debug)]
pub enum RestoreAction {
    /// To see whether the file is there.
    Exists(Place),
    /// To remove the file.
    Remove(Place),
    /// To move the file.
    Rename { from: Place, to: Place },
    /// To let a tenth of a second pass.
    Pause,
    /// Nothing more.
    Finish(RestoreOutcome),
}

/// What is to be done at a stage.
pub open spec fn action_at(stage: RestoreStage) -> RestoreAction {
    match stage {
        RestoreStage::LookForBackup => RestoreAction::Exists(Place::Backup),
        RestoreStage::ClearOld | RestoreStage::CleanOld => RestoreAction::Remove(Place::Old),
        RestoreStage::ClearOldSidecar(sidecar)
        | RestoreStage::CleanOldSidecar(sidecar) => RestoreAction::Remove(
            Place::OldSidecar(sidecar),
        ),
        RestoreStage::LookForDatabase => RestoreAction::Exists(Place::Database),
        RestoreStage::MoveAside(_) => RestoreAction::Rename {
            from: Place::Database,
            to: Place::Old,
        },
        RestoreStage::Wait(_) => RestoreAction::Pause,
        RestoreStage::GiveUp | RestoreStage::DropBackup => RestoreAction::Remove(Place::Backup),
        RestoreStage::LookForSidecar(sidecar) => RestoreAction::Exists(
            Place::DatabaseSidecar(sidecar),
        ),
        RestoreStage::MoveSidecar(sidecar) => RestoreAction::Rename {
            from: Place::DatabaseSidecar(sidecar),
            to: Place::OldSidecar(sidecar),
        },
        RestoreStage::DropSidecar(sidecar) => RestoreAction::Remove(
            Place::DatabaseSidecar(sidecar),
        ),
        RestoreStage::Apply => RestoreAction::Rename { from: Place::Backup, to: Place::Database },
        RestoreStage::LookForOld => RestoreAction::Exists(Place::Old),
        RestoreStage::PutBack => RestoreAction::Rename { from: Place::Old, to: Place::Database },
        RestoreStage::LookForOldSidecar(sidecar) => RestoreAction::Exists(
            Place::OldSidecar(sidecar),
        ),
        RestoreStage::PutBackSidecar(sidecar) => RestoreAction::Rename {
            from: Place::OldSidecar(sidecar),
            to: Place::DatabaseSidecar(sidecar),
        },
        RestoreStage::Over(outcome) => RestoreAction::Finish(outcome),
    }
}

/// The stage once the database's sidecar was dealt with.
pub open spec fn after_sidecar(sidecar: Sidecar) -> RestoreStage {
    match sidecar {
        Sidecar::Wal => RestoreStage::LookForSidecar(Sidecar::Shm),
        Sidecar::Shm => RestoreStage::Apply,
    }
}

/// The stage once the old sidecar was put back, or there was none.
pub open spec fn after_put_back(sidecar: Sidecar) -> RestoreStage {
    match sidecar {
        Sidecar::Wal => RestoreStage::LookForOldSidecar(Sidecar::Shm),
        Sidecar::Shm => RestoreStage::DropBackup,
    }
}

/// The stage that follows, where the answer to what was done is `yes`: the file
/// is there, or the file was removed or moved.
pub open spec fn stage_after(stage: RestoreStage, yes: bool) -> RestoreStage {
    match stage {
        RestoreStage::LookForBackup => if yes {
            RestoreStage::ClearOld
        } else {
            RestoreStage::Over(RestoreOutcome::NothingPending)
        },
        RestoreStage::ClearOld => RestoreStage::ClearOldSidecar(Sidecar::Wal),
        RestoreStage::ClearOldSidecar(Sidecar::Wal) => RestoreStage::ClearOldSidecar(Sidecar::Shm),
        RestoreStage::ClearOldSidecar(Sidecar::Shm) => RestoreStage::LookForDatabase,
        RestoreStage::LookForDatabase => if yes {
            RestoreStage::MoveAside(MOVE_ATTEMPTS)
        } else {
            RestoreStage::LookForSidecar(Sidecar::Wal)
        },
        RestoreStage::MoveAside(left) => if yes {
            RestoreStage::LookForSidecar(Sidecar::Wal)
        } else {
            RestoreStage::Wait(left)
        },
        RestoreStage::Wait(left) => if left > 1 {
            RestoreStage::MoveAside((left - 1) as u64)
        } else {
            RestoreStage::GiveUp
        },
        RestoreStage::GiveUp => RestoreStage::Over(RestoreOutcome::Occupied),
        RestoreStage::LookForSidecar(sidecar) => if yes {
            RestoreStage::MoveSidecar(sidecar)
        } else {
            after_sidecar(sidecar)
        },
        RestoreStage::MoveSidecar(sidecar) => if yes {
            after_sidecar(sidecar)
        } else {
            RestoreStage::DropSidecar(sidecar)
        },
        RestoreStage::DropSidecar(sidecar) => after_sidecar(sidecar),
        RestoreStage::Apply => if yes {
            RestoreStage::CleanOld
        } else {
            RestoreStage::LookForOld
        },
        RestoreStage::CleanOld => RestoreStage::CleanOldSidecar(Sidecar::Wal),
        RestoreStage::CleanOldSidecar(Sidecar::Wal) => RestoreStage::CleanOldSidecar(Sidecar::Shm),
        RestoreStage::CleanOldSidecar(Sidecar::Shm) => RestoreStage::Over(RestoreOutcome::Applied),
        RestoreStage::LookForOld => if yes {
            RestoreStage::PutBack
        } else {
            RestoreStage::LookForOldSidecar(Sidecar::Wal)
        },
        RestoreStage::PutBack => RestoreStage::LookForOldSidecar(Sidecar::Wal),
        RestoreStage::LookForOldSidecar(sidecar) => if yes {
            RestoreStage::PutBackSidecar(sidecar)
        } else {
            after_put_back(sidecar)
        },
        RestoreStage::PutBackSidecar(sidecar) => after_put_back(sidecar),
        RestoreStage::DropBackup => RestoreStage::Over(RestoreOutcome::RolledBack),
        RestoreStage::Over(outcome) => RestoreStage::Over(outcome),
    }
}

/// A restore that is about to begin: it is applied by doing what each stage asks
/// for and handing back the answer, until nothing more is asked.
pub fn apply_pending_restore() -> (r: RestoreStage)
    ensures
        r == RestoreStage::LookForBackup,
{
    RestoreStage::LookForBackup
}

fn sidecar_done(sidecar: Sidecar) -> (r: RestoreStage)
    ensures
        r == after_sidecar(sidecar),
{
    match sidecar {
        Sidecar::Wal => RestoreStage::LookForSidecar(Sidecar::Shm),
        Sidecar::Shm => RestoreStage::Apply,
    }
}

fn put_back_done(sidecar: Sidecar) -> (r: RestoreStage)
    ensures
        r == after_put_back(sidecar),
{
    match sidecar {
        Sidecar::Wal => RestoreStage::LookForOldSidecar(Sidecar::Shm),
        Sidecar::Shm => RestoreStage::DropBackup,
    }
}

impl RestoreStage {
    /// What is to be done.
    pub fn action(&self) -> (r: RestoreAction)
        ensures
            r == action_at(*self),
    {
        match *self {
            RestoreStage::LookForBackup => RestoreAction::Exists(Place::Backup),
            RestoreStage::ClearOld | RestoreStage::CleanOld => RestoreAction::Remove(Place::Old),
            RestoreStage::ClearOldSidecar(sidecar)
            | RestoreStage::CleanOldSidecar(sidecar) => RestoreAction::Remove(
                Place::OldSidecar(sidecar),
            ),
            RestoreStage::LookForDatabase => RestoreAction::Exists(Place::Database),
            RestoreStage::MoveAside(_) => RestoreAction::Rename {
                from: Place::Database,
                to: Place::Old,
            },
            RestoreStage::Wait(_) => RestoreAction::Pause,
            RestoreStage::GiveUp | RestoreStage::DropBackup => RestoreAction::Remove(Place::Backup),
            RestoreStage::LookForSidecar(sidecar) => RestoreAction::Exists(
                Place::DatabaseSidecar(sidecar),
            ),
            RestoreStage::MoveSidecar(sidecar) => RestoreAction::Rename {
                from: Place::DatabaseSidecar(sidecar),
                to: Place::OldSidecar(sidecar),
            },
            RestoreStage::DropSidecar(sidecar) => RestoreAction::Remove(
                Place::DatabaseSidecar(sidecar),
            ),
            RestoreStage::Apply => RestoreAction::Rename {
                from: Place::Backup,
                to: Place::Database,
            },
            RestoreStage::LookForOld => RestoreAction::Exists(Place::Old),
            RestoreStage::PutBack => RestoreAction::Rename {
                from: Place::Old,
                to: Place::Database,
            },
            RestoreStage::LookForOldSidecar(sidecar) => RestoreAction::Exists(
                Place::OldSidecar(sidecar),
            ),
            RestoreStage::PutBackSidecar(sidecar) => RestoreAction::Rename {
                from: Place::OldSidecar(sidecar),
                to: Place::DatabaseSidecar(sidecar),
            },
            RestoreStage::Over(outcome) => RestoreAction::Finish(outcome),
        }
    }

    /// The stage that follows, where the answer to what was done is `yes`.
    pub fn next(&self, yes: bool) -> (r: RestoreStage)
        ensures
            r == stage_after(*self, yes),
    {
        match *self {
            RestoreStage::LookForBackup => if yes {
                RestoreStage::ClearOld
            } else {
                RestoreStage::Over(RestoreOutcome::NothingPending)
            },
            RestoreStage::ClearOld => RestoreStage::ClearOldSidecar(Sidecar::Wal),
            RestoreStage::ClearOldSidecar(Sidecar::Wal) => RestoreStage::ClearOldSidecar(
                Sidecar::Shm,
            ),
            RestoreStage::ClearOldSidecar(Sidecar::Shm) => RestoreStage::LookForDatabase,
            RestoreStage::LookForDatabase => if yes {
                RestoreStage::MoveAside(MOVE_ATTEMPTS)
            } else {
                RestoreStage::LookForSidecar(Sidecar::Wal)
            },
            RestoreStage::MoveAside(left) => if yes {
                RestoreStage::LookForSidecar(Sidecar::Wal)
            } else {
                RestoreStage::Wait(left)
            },
            RestoreStage::Wait(left) => if left > 1 {
                RestoreStage::MoveAside(left - 1)
            } else {
                RestoreStage::GiveUp
            },
            RestoreStage::GiveUp => RestoreStage::Over(RestoreOutcome::Occupied),
            RestoreStage::LookForSidecar(sidecar) => if yes {
                RestoreStage::MoveSidecar(sidecar)
            } else {
                sidecar_done(sidecar)
            },
            RestoreStage::MoveSidecar(sidecar) => if yes {
                sidecar_done(sidecar)
            } else {
                RestoreStage::DropSidecar(sidecar)
            },
            RestoreStage::DropSidecar(sidecar) => sidecar_done(sidecar),
            RestoreStage::Apply => if yes {
                RestoreStage::CleanOld
            } else {
                RestoreStage::LookForOld
            },
            RestoreStage::CleanOld => RestoreStage::CleanOldSidecar(Sidecar::Wal),
            RestoreStage::CleanOldSidecar(Sidecar::Wal) => RestoreStage::CleanOldSidecar(
                Sidecar::Shm,
            ),
            RestoreStage::CleanOldSidecar(Sidecar::Shm) => RestoreStage::Over(
                RestoreOutcome::Applied,
            ),
            RestoreStage::LookForOld => if yes {
                RestoreStage::PutBack
            } else {
                RestoreStage::LookForOldSidecar(Sidecar::Wal)
            },
            RestoreStage::PutBack => RestoreStage::LookForOldSidecar(Sidecar::Wal),
            RestoreStage::LookForOldSidecar(sidecar) => if yes {
                RestoreStage::PutBackSidecar(sidecar)
            } else {
                put_back_done(sidecar)
            },
            RestoreStage::PutBackSidecar(sidecar) => put_back_done(sidecar),
            RestoreStage::DropBackup => RestoreStage::Over(RestoreOutcome::RolledBack),
            RestoreStage::Over(outcome) => RestoreStage::Over(outcome),
        }
    }
}

/// No two places share a path.
pub proof fn law_paths_differ(database: Seq<char>, one: Place, other: Place)
    ensures
        path_of(database, one) == path_of(database, other) ==> one == other,
{
    reveal_strlit("-wal");
    reveal_strlit("-shm");
    reveal_strlit(".old");
    reveal_strlit(".restore");
    if path_of(database, one) == path_of(database, other) {
        let n = database.len() as int;
        assert(path_of(database, one).skip(n) =~= place_suffix(one));
        assert(path_of(database, other).skip(n) =~= place_suffix(other));
        let a = place_suffix(one);
        let b = place_suffix(other);
        assert(a == b);
        assert(a.len() == b.len());
        if a.len() == 4 {
            assert(a[1] == b[1]);
        }
        if a.len() == 8 {
            assert(a[1] == b[1]);
            assert(a[5] == b[5]);
        }
    }
}

/// The files at the places, with what they hold.
pub type Files = Map<Place, Seq<u8>>;

/// What doing something makes of the files, where the answer is `yes`. Anything
/// may fail, and what fails changes nothing.
pub open spec fn happens(action: RestoreAction, yes: bool, before: Files, after: Files) -> bool {
    match action {
        RestoreAction::Exists(place) => yes == before.contains_key(place) && after == before,
        RestoreAction::Remove(place) => if yes {
            before.contains_key(place) && after == before.remove(place)
        } else {
            after == before
        },
        RestoreAction::Rename { from, to } => if yes {
            before.contains_key(from) && after == before.remove(from).insert(to, before[from])
        } else {
            after == before
        },
        RestoreAction::Pause => after == before,
        RestoreAction::Finish(_) => after == before,
    }
}

/// A step of a restore: the answer, and the files after it.
pub ghost struct RestoreStep {
    pub yes: bool,
    pub files: Files,
}

/// The stage after the steps.
pub open spec fn stage_reached(steps: Seq<RestoreStep>) -> RestoreStage
    decreases steps.len(),
{
    if steps.len() == 0 {
        RestoreStage::LookForBackup
    } else {
        stage_after(stage_reached(steps.drop_last()), steps.last().yes)
    }
}

/// The files after the steps, from `first`.
pub open spec fn files_reached(first: Files, steps: Seq<RestoreStep>) -> Files {
    if steps.len() == 0 {
        first
    } else {
        steps.last().files
    }
}

/// Each step does what its stage asks for.
pub open spec fn restores(first: Files, steps: Seq<RestoreStep>) -> bool
    decreases steps.len(),
{
    steps.len() == 0 || {
        let before = steps.drop_last();
        &&& restores(first, before)
        &&& happens(
            action_at(stage_reached(before)),
            steps.last().yes,
            files_reached(first, before),
            steps.last().files,
        )
    }
}

/// The place holds the same in both.
pub open spec fn alike(a: Files, b: Files, place: Place) -> bool {
    &&& a.contains_key(place) == b.contains_key(place)
    &&& a.contains_key(place) ==> a[place] == b[place]
}

/// What `a` holds at `at` is what `b` holds at `place`.
pub open spec fn moved_to(a: Files, at: Place, b: Files, place: Place) -> bool {
    &&& a.contains_key(at) == b.contains_key(place)
    &&& a.contains_key(at) ==> a[at] == b[place]
}

/// An upper bound on the steps that a restore still takes.
pub open spec fn steps_left(stage: RestoreStage) -> nat {
    match stage {
        RestoreStage::LookForBackup => 135,
        RestoreStage::ClearOld => 134,
        RestoreStage::ClearOldSidecar(Sidecar::Wal) => 133,
        RestoreStage::ClearOldSidecar(Sidecar::Shm) => 132,
        RestoreStage::LookForDatabase => 131,
        RestoreStage::MoveAside(left) => 2 * left as nat + 30,
        RestoreStage::Wait(left) => 2 * left as nat + 29,
        RestoreStage::GiveUp => 1,
        RestoreStage::LookForSidecar(Sidecar::Wal) => 20,
        RestoreStage::MoveSidecar(Sidecar::Wal) => 19,
        RestoreStage::DropSidecar(Sidecar::Wal) => 18,
        RestoreStage::LookForSidecar(Sidecar::Shm) => 17,
        RestoreStage::MoveSidecar(Sidecar::Shm) => 16,
        RestoreStage::DropSidecar(Sidecar::Shm) => 15,
        RestoreStage::Apply => 14,
        RestoreStage::CleanOld => 3,
        RestoreStage::CleanOldSidecar(Sidecar::Wal) => 2,
        RestoreStage::CleanOldSidecar(Sidecar::Shm) => 1,
        RestoreStage::LookForOld => 7,
        RestoreStage::PutBack => 6,
        RestoreStage::LookForOldSidecar(Sidecar::Wal) => 5,
        RestoreStage::PutBackSidecar(Sidecar::Wal) => 4,
        RestoreStage::LookForOldSidecar(Sidecar::Shm) => 3,
        RestoreStage::PutBackSidecar(Sidecar::Shm) => 2,
        RestoreStage::DropBackup => 1,
        RestoreStage::Over(_) => 0,
    }
}

/// A restore comes to an end, whatever the answers are.
pub proof fn law_restore_ends(steps: Seq<RestoreStep>)
    ensures
        steps.len() >= 135 ==> stage_reached(steps) is Over,
        steps.len() + steps_left(stage_reached(steps)) <= 135 || stage_reached(steps) is Over,
    decreases steps.len(),
{
    if steps.len() > 0 {
        law_restore_ends(steps.drop_last());
    }
}

/// What holds at a stage: where the database that was there at the start is,
/// and where the backup is.
spec fn keeps(stage: RestoreStage, first: Files, files: Files) -> bool {
    let held = first.contains_key(Place::Database);
    match stage {
        RestoreStage::LookForBackup => files == first,
        RestoreStage::ClearOld
        | RestoreStage::ClearOldSidecar(_)
        | RestoreStage::LookForDatabase => {
            &&& first.contains_key(Place::Backup)
            &&& alike(files, first, Place::Backup)
            &&& alike(files, first, Place::Database)
            &&& alike(files, first, Place::DatabaseSidecar(Sidecar::Wal))
            &&& alike(files, first, Place::DatabaseSidecar(Sidecar::Shm))
        },
        RestoreStage::MoveAside(_) | RestoreStage::Wait(_) | RestoreStage::GiveUp => {
            &&& held
            &&& first.contains_key(Place::Backup)
            &&& alike(files, first, Place::Backup)
            &&& alike(files, first, Place::Database)
            &&& alike(files, first, Place::DatabaseSidecar(Sidecar::Wal))
            &&& alike(files, first, Place::DatabaseSidecar(Sidecar::Shm))
        },
        RestoreStage::LookForSidecar(_)
        | RestoreStage::MoveSidecar(_)
        | RestoreStage::DropSidecar(_)
        | RestoreStage::Apply
        | RestoreStage::LookForOld
        | RestoreStage::PutBack => {
            &&& first.contains_key(Place::Backup)
            &&& alike(files, first, Place::Backup)
            &&& !files.contains_key(Place::Database)
            &&& held ==> moved_to(files, Place::Old, first, Place::Database)
        },
        RestoreStage::CleanOld | RestoreStage::CleanOldSidecar(_) => {
            &&& first.contains_key(Place::Backup)
            &&& moved_to(files, Place::Database, first, Place::Backup)
            &&& !files.contains_key(Place::Backup)
        },
        RestoreStage::LookForOldSidecar(_)
        | RestoreStage::PutBackSidecar(_)
        | RestoreStage::DropBackup => {
            &&& first.contains_key(Place::Backup)
            &&& held ==> moved_to(files, Place::Old, first, Place::Database) || alike(
                files,
                first,
                Place::Database,
            )
        },
        RestoreStage::Over(outcome) => match outcome {
            RestoreOutcome::NothingPending => files == first && !first.contains_key(Place::Backup),
            RestoreOutcome::Occupied => {
                &&& held
                &&& first.contains_key(Place::Backup)
                &&& alike(files, first, Place::Database)
                &&& alike(files, first, Place::DatabaseSidecar(Sidecar::Wal))
                &&& alike(files, first, Place::DatabaseSidecar(Sidecar::Shm))
            },
            RestoreOutcome::Applied => {
                &&& first.contains_key(Place::Backup)
                &&& moved_to(files, Place::Database, first, Place::Backup)
                &&& !files.contains_key(Place::Backup)
            },
            RestoreOutcome::RolledBack => {
                &&& first.contains_key(Place::Backup)
                &&& held ==> moved_to(files, Place::Old, first, Place::Database) || alike(
                    files,
                    first,
                    Place::Database,
                )
            },
        },
    }
}

proof fn lemma_keeps(first: Files, steps: Seq<RestoreStep>)
    requires
        restores(first, steps),
    ensures
        keeps(stage_reached(steps), first, files_reached(first, steps)),
    decreases steps.len(),
{
    if steps.len() > 0 {
        lemma_keeps(first, steps.drop_last());
    }
}

/// Whatever fails on the way, at every step the database that was there at the
/// start is still in its place or kept beside it, unless the backup has taken
/// its place.
pub proof fn law_restore_keeps_the_database(first: Files, steps: Seq<RestoreStep>)
    requires
        restores(first, steps),
        first.contains_key(Place::Database),
    ensures
        ({
            let files = files_reached(first, steps);
            ||| alike(files, first, Place::Database)
            ||| moved_to(files, Place::Old, first, Place::Database)
            ||| first.contains_key(Place::Backup) && moved_to(
                files,
                Place::Database,
                first,
                Place::Backup,
            )
        }),
{
    lemma_keeps(first, steps);
}

/// What an outcome means for the files, whatever fails on the way. Without a
/// backup nothing is touched. Where the database was held fast it stays as it
/// was, sidecars and all. Where the backup was applied it is the database, and
/// no backup is left to be applied again.
pub proof fn law_restore_outcomes(first: Files, steps: Seq<RestoreStep>)
    requires
        restores(first, steps),
    ensures
        match stage_reached(steps) {
            RestoreStage::Over(RestoreOutcome::NothingPending) => {
                &&& !first.contains_key(Place::Backup)
                &&& files_reached(first, steps) == first
            },
            RestoreStage::Over(RestoreOutcome::Occupied) => {
                &&& first.contains_key(Place::Database)
                &&& alike(files_reached(first, steps), first, Place::Database)
                &&& alike(
                    files_reached(first, steps),
                    first,
                    Place::DatabaseSidecar(Sidecar::Wal),
                )
                &&& alike(
                    files_reached(first, steps),
                    first,
                    Place::DatabaseSidecar(Sidecar::Shm),
                )
            },
            RestoreStage::Over(RestoreOutcome::Applied) => {
                &&& moved_to(files_reached(first, steps), Place::Database, first, Place::Backup)
                &&& files_reached(first, steps).contains_key(Place::Database)
                &&& !files_reached(first, steps).contains_key(Place::Backup)
            },
            _ => true,
        },
{
    lemma_keeps(first, steps);
}

/// Every file that is there and is to be removed is removed.
pub open spec fn removals_work(first: Files, steps: Seq<RestoreStep>) -> bool {
    forall|i: int|
        0 <= i < steps.len() ==> match action_at(stage_reached(#[trigger] steps.take(i))) {
            RestoreAction::Remove(place) => steps[i].yes == files_reached(
                first,
                steps.take(i),
            ).contains_key(place),
            _ => true,
        }
}

/// Every sidecar that is to be moved is moved, and so is everything that is to
/// be put back. Of the database and the backup nothing is said: the one may take
/// several tries, the other may fail.
pub open spec fn moves_work(steps: Seq<RestoreStep>) -> bool {
    forall|i: int|
        0 <= i < steps.len() ==> match action_at(stage_reached(#[trigger] steps.take(i))) {
            RestoreAction::Rename { from, to } => from == Place::Backup || from == Place::Database
                || steps[i].yes,
            _ => true,
        }
}

proof fn lemma_shorter(first: Files, steps: Seq<RestoreStep>)
    requires
        steps.len() > 0,
    ensures
        steps.take(steps.len() - 1) == steps.drop_last(),
        removals_work(first, steps) ==> removals_work(first, steps.drop_last()),
        moves_work(steps) ==> moves_work(steps.drop_last()),
{
    let before = steps.drop_last();
    assert(steps.take(steps.len() - 1) =~= before);
    assert forall|i: int| 0 <= i < before.len() implies #[trigger] before.take(i) == steps.take(
        i,
    ) by {
        assert(before.take(i) =~= steps.take(i));
    }
}

/// Nothing is left of what was moved out of the way.
spec fn no_old(files: Files) -> bool {
    &&& !files.contains_key(Place::Old)
    &&& !files.contains_key(Place::OldSidecar(Sidecar::Wal))
    &&& !files.contains_key(Place::OldSidecar(Sidecar::Shm))
}

/// Which places are empty at a stage, where removals work.
spec fn tidy(stage: RestoreStage, files: Files) -> bool {
    match stage {
        RestoreStage::LookForBackup | RestoreStage::ClearOld => true,
        RestoreStage::ClearOldSidecar(Sidecar::Wal)
        | RestoreStage::CleanOldSidecar(Sidecar::Wal) => !files.contains_key(Place::Old),
        RestoreStage::ClearOldSidecar(Sidecar::Shm)
        | RestoreStage::CleanOldSidecar(Sidecar::Shm) => !files.contains_key(Place::Old)
            && !files.contains_key(Place::OldSidecar(Sidecar::Wal)),
        RestoreStage::LookForDatabase
        | RestoreStage::MoveAside(_)
        | RestoreStage::Wait(_)
        | RestoreStage::GiveUp => no_old(files),
        RestoreStage::Over(outcome) => outcome == RestoreOutcome::Applied ==> no_old(files),
        _ => true,
    }
}

/// No sidecar of the database is left at a stage, where removals work.
spec fn clean(stage: RestoreStage, files: Files) -> bool {
    let wal = files.contains_key(Place::DatabaseSidecar(Sidecar::Wal));
    let shm = files.contains_key(Place::DatabaseSidecar(Sidecar::Shm));
    match stage {
        RestoreStage::LookForSidecar(Sidecar::Shm)
        | RestoreStage::MoveSidecar(Sidecar::Shm)
        | RestoreStage::DropSidecar(Sidecar::Shm) => !wal,
        RestoreStage::Apply
        | RestoreStage::CleanOld
        | RestoreStage::CleanOldSidecar(_) => !wal && !shm,
        RestoreStage::Over(RestoreOutcome::Applied) => !wal && !shm,
        _ => true,
    }
}

proof fn lemma_tidy_step(stage: RestoreStage, yes: bool, before: Files, after: Files)
    requires
        happens(action_at(stage), yes, before, after),
        action_at(stage) matches RestoreAction::Remove(place) ==> yes == before.contains_key(place),
        tidy(stage, before),
        clean(stage, before),
    ensures
        tidy(stage_after(stage, yes), after),
        clean(stage_after(stage, yes), after),
{
}

proof fn lemma_tidy(first: Files, steps: Seq<RestoreStep>)
    requires
        restores(first, steps),
        removals_work(first, steps),
    ensures
        tidy(stage_reached(steps), files_reached(first, steps)),
        clean(stage_reached(steps), files_reached(first, steps)),
    decreases steps.len(),
{
    if steps.len() > 0 {
        let before = steps.drop_last();
        lemma_shorter(first, steps);
        lemma_tidy(first, before);
        assert(steps.take(steps.len() - 1) == before);
        lemma_tidy_step(
            stage_reached(before),
            steps.last().yes,
            files_reached(first, before),
            steps.last().files,
        );
    }
}

/// Where removals work, a backup that was applied is all that is left: nothing
/// of the database before it can get mixed up with it.
pub proof fn law_applied_backup_stands_alone(first: Files, steps: Seq<RestoreStep>)
    requires
        restores(first, steps),
        removals_work(first, steps),
        stage_reached(steps) == RestoreStage::Over(RestoreOutcome::Applied),
    ensures
        first.contains_key(Place::Backup),
        files_reached(first, steps) == map![Place::Database => first[Place::Backup]],
{
    lemma_keeps(first, steps);
    lemma_tidy(first, steps);
    let files = files_reached(first, steps);
    assert forall|place: Place| files.contains_key(place) implies place == Place::Database by {
        match place {
            Place::DatabaseSidecar(Sidecar::Wal) => {},
            Place::DatabaseSidecar(Sidecar::Shm) => {},
            Place::OldSidecar(Sidecar::Wal) => {},
            Place::OldSidecar(Sidecar::Shm) => {},
            _ => {},
        }
    }
    assert(files =~= map![Place::Database => first[Place::Backup]]);
}

/// Where the database's sidecars are at a stage, where removals and moves work.
spec fn sidecars_follow(stage: RestoreStage, first: Files, files: Files) -> bool {
    let wal = Place::DatabaseSidecar(Sidecar::Wal);
    let shm = Place::DatabaseSidecar(Sidecar::Shm);
    let old_wal = Place::OldSidecar(Sidecar::Wal);
    let old_shm = Place::OldSidecar(Sidecar::Shm);
    let held = first.contains_key(Place::Database);
    match stage {
        RestoreStage::LookForSidecar(Sidecar::Wal) | RestoreStage::MoveSidecar(Sidecar::Wal) => {
            &&& alike(files, first, wal)
            &&& alike(files, first, shm)
            &&& !files.contains_key(old_wal)
            &&& !files.contains_key(old_shm)
            &&& !held ==> !files.contains_key(Place::Old)
            &&& stage is MoveSidecar ==> files.contains_key(wal)
        },
        RestoreStage::LookForSidecar(Sidecar::Shm) | RestoreStage::MoveSidecar(Sidecar::Shm) => {
            &&& moved_to(files, old_wal, first, wal)
            &&& alike(files, first, shm)
            &&& !files.contains_key(wal)
            &&& !files.contains_key(old_shm)
            &&& !held ==> !files.contains_key(Place::Old)
            &&& stage is MoveSidecar ==> files.contains_key(shm)
        },
        RestoreStage::DropSidecar(_) => false,
        RestoreStage::Apply | RestoreStage::LookForOld | RestoreStage::PutBack => {
            &&& moved_to(files, old_wal, first, wal)
            &&& moved_to(files, old_shm, first, shm)
            &&& !files.contains_key(wal)
            &&& !files.contains_key(shm)
            &&& !held ==> !files.contains_key(Place::Old)
            &&& stage is PutBack ==> held
        },
        RestoreStage::LookForOldSidecar(Sidecar::Wal)
        | RestoreStage::PutBackSidecar(Sidecar::Wal) => {
            &&& alike(files, first, Place::Database)
            &&& moved_to(files, old_wal, first, wal)
            &&& moved_to(files, old_shm, first, shm)
            &&& !files.contains_key(wal)
            &&& !files.contains_key(shm)
            &&& !files.contains_key(Place::Old)
            &&& stage is PutBackSidecar ==> files.contains_key(old_wal)
        },
        RestoreStage::LookForOldSidecar(Sidecar::Shm)
        | RestoreStage::PutBackSidecar(Sidecar::Shm) => {
            &&& alike(files, first, Place::Database)
            &&& alike(files, first, wal)
            &&& moved_to(files, old_shm, first, shm)
            &&& !files.contains_key(old_wal)
            &&& !files.contains_key(shm)
            &&& !files.contains_key(Place::Old)
            &&& stage is PutBackSidecar ==> files.contains_key(old_shm)
        },
        RestoreStage::DropBackup => {
            &&& alike(files, first, Place::Database)
            &&& alike(files, first, wal)
            &&& alike(files, first, shm)
            &&& no_old(files)
        },
        RestoreStage::Over(RestoreOutcome::RolledBack) => {
            &&& alike(files, first, Place::Database)
            &&& alike(files, first, wal)
            &&& alike(files, first, shm)
            &&& no_old(files)
            &&& !files.contains_key(Place::Backup)
        },
        _ => true,
    }
}

proof fn lemma_sidecars_step(
    stage: RestoreStage,
    yes: bool,
    first: Files,
    before: Files,
    after: Files,
)
    requires
        happens(action_at(stage), yes, before, after),
        match action_at(stage) {
            RestoreAction::Remove(place) => yes == before.contains_key(place),
            RestoreAction::Rename { from, to } => from == Place::Backup || from == Place::Database
                || yes,
            _ => true,
        },
        keeps(stage, first, before),
        tidy(stage, before),
        sidecars_follow(stage, first, before),
    ensures
        sidecars_follow(stage_after(stage, yes), first, after),
{
}

proof fn lemma_sidecars_follow(first: Files, steps: Seq<RestoreStep>)
    requires
        restores(first, steps),
        removals_work(first, steps),
        moves_work(steps),
    ensures
        sidecars_follow(stage_reached(steps), first, files_reached(first, steps)),
    decreases steps.len(),
{
    if steps.len() > 0 {
        let before = steps.drop_last();
        lemma_shorter(first, steps);
        lemma_sidecars_follow(first, before);
        lemma_keeps(first, before);
        lemma_tidy(first, before);
        assert(steps.take(steps.len() - 1) == before);
        lemma_sidecars_step(
            stage_reached(before),
            steps.last().yes,
            first,
            files_reached(first, before),
            steps.last().files,
        );
    }
}

/// Where only the backup cannot be moved, a restore changes nothing: database
/// and sidecars are back in their places as they were, nothing else is left,
/// and the backup is gone.
pub proof fn law_failed_restore_changes_nothing(first: Files, steps: Seq<RestoreStep>)
    requires
        restores(first, steps),
        removals_work(first, steps),
        moves_work(steps),
        stage_reached(steps) == RestoreStage::Over(RestoreOutcome::RolledBack),
    ensures
        files_reached(first, steps) == first.restrict(
            set![
                Place::Database,
                Place::DatabaseSidecar(Sidecar::Wal),
                Place::DatabaseSidecar(Sidecar::Shm),
            ],
        ),
{
    lemma_sidecars_follow(first, steps);
    let files = files_reached(first, steps);
    let kept = set![
        Place::Database,
        Place::DatabaseSidecar(Sidecar::Wal),
        Place::DatabaseSidecar(Sidecar::Shm),
    ];
    assert forall|place: Place| files.contains_key(place) <==> #[trigger] first.restrict(
        kept,
    ).contains_key(place) by {
        match place {
            Place::DatabaseSidecar(Sidecar::Wal) => {},
            Place::DatabaseSidecar(Sidecar::Shm) => {},
            Place::OldSidecar(Sidecar::Wal) => {},
            Place::OldSidecar(Sidecar::Shm) => {},
            _ => {},
        }
    }
    assert(files =~= first.restrict(kept));
}

/// The paths of the places, beside the path of the database.
pub proof fn law_paths(database: Seq<char>)
    ensures
        path_of(database, Place::Database) == database,
        path_of(database, Place::Backup) == database + ".restore"@,
        path_of(database, Place::Old) == database + ".old"@,
        path_of(database, Place::DatabaseSidecar(Sidecar::Wal)) == database + "-wal"@,
        path_of(database, Place::DatabaseSidecar(Sidecar::Shm)) == database + "-shm"@,
        path_of(database, Place::OldSidecar(Sidecar::Wal)) == database + ".old"@ + "-wal"@,
        path_of(database, Place::OldSidecar(Sidecar::Shm)) == database + ".old"@ + "-shm"@,
{
    assert(path_of(database, Place::Database) =~= database);
    assert(path_of(database, Place::OldSidecar(Sidecar::Wal)) =~= database + ".old"@ + "-wal"@);
    assert(path_of(database, Place::OldSidecar(Sidecar::Shm)) =~= database + ".old"@ + "-shm"@);
}

/// How often moving the database out of the way has failed.
pub open spec fn failed_moves(steps: Seq<RestoreStep>) -> nat
    decreases steps.len(),
{
    if steps.len() == 0 {
        0
    } else {
        failed_moves(steps.drop_last()) + if action_at(stage_reached(steps.drop_last())) == (
        RestoreAction::Rename { from: Place::Database, to: Place::Old }) && !steps.last().yes {
            1nat
        } else {
            0nat
        }
    }
}

proof fn lemma_failed_moves(steps: Seq<RestoreStep>)
    ensures
        match stage_reached(steps) {
            RestoreStage::LookForBackup
            | RestoreStage::ClearOld
            | RestoreStage::ClearOldSidecar(_)
            | RestoreStage::LookForDatabase
            | RestoreStage::Over(RestoreOutcome::NothingPending) => failed_moves(steps) == 0,
            RestoreStage::MoveAside(left) => 1 <= left <= 50 && failed_moves(steps) + left == 50,
            RestoreStage::Wait(left) => 1 <= left <= 50 && failed_moves(steps) + left == 51,
            RestoreStage::GiveUp | RestoreStage::Over(RestoreOutcome::Occupied) => failed_moves(
                steps,
            ) == 50,
            _ => failed_moves(steps) < 50,
        },
    decreases steps.len(),
{
    if steps.len() > 0 {
        lemma_failed_moves(steps.drop_last());
    }
}

/// A restore gives up on a database that is held fast after fifty tries to move it,
/// and not before. Between two tries some time passes.
pub proof fn law_a_held_database_is_tried_fifty_times(steps: Seq<RestoreStep>)
    ensures
        stage_reached(steps) == RestoreStage::Over(RestoreOutcome::Occupied) ==> failed_moves(steps)
            == 50,
        failed_moves(steps) <= 50,
        action_at(stage_reached(steps)) == (RestoreAction::Rename {
            from: Place::Database,
            to: Place::Old,
        }) ==> failed_moves(steps) < 50 && action_at(stage_after(stage_reached(steps), false))
            == RestoreAction::Pause,
{
    lemma_failed_moves(steps);
}

/// At the step `i` something could not be moved from the place.
pub open spec fn move_failed_at(steps: Seq<RestoreStep>, i: int, place: Place) -> bool {
    &&& 0 <= i < steps.len()
    &&& !steps[i].yes
    &&& action_at(stage_reached(steps.take(i))) matches RestoreAction::Rename { from, to } && from
        == place
}

proof fn lemma_causes(first: Files, steps: Seq<RestoreStep>)
    requires
        restores(first, steps),
    ensures
        match stage_reached(steps) {
            RestoreStage::Wait(_)
            | RestoreStage::GiveUp
            | RestoreStage::Over(RestoreOutcome::Occupied) => exists|i: int|
                #[trigger] move_failed_at(steps, i, Place::Database),
            RestoreStage::LookForOld
            | RestoreStage::PutBack
            | RestoreStage::LookForOldSidecar(_)
            | RestoreStage::PutBackSidecar(_)
            | RestoreStage::DropBackup
            | RestoreStage::Over(RestoreOutcome::RolledBack) => exists|i: int|
                #[trigger] move_failed_at(steps, i, Place::Backup),
            _ => true,
        },
    decreases steps.len(),
{
    if steps.len() > 0 {
        let before = steps.drop_last();
        let last = steps.len() - 1;
        lemma_causes(first, before);
        assert(steps.take(last) =~= before);
        assert forall|i: int, place: Place| #[trigger] move_failed_at(
            before,
            i,
            place,
        ) implies move_failed_at(steps, i, place) by {
            assert(before.take(i) =~= steps.take(i));
            assert(before[i] == steps[i]);
        }
        let stage = stage_reached(before);
        if stage is MoveAside && !steps.last().yes {
            assert(move_failed_at(steps, last, Place::Database));
        } else if stage == RestoreStage::Apply && !steps.last().yes {
            assert(move_failed_at(steps, last, Place::Backup));
        } else {
            match stage {
                RestoreStage::Wait(_) | RestoreStage::GiveUp => {
                    let i = choose|i: int| #[trigger] move_failed_at(before, i, Place::Database);
                    assert(move_failed_at(steps, i, Place::Database));
                },
                RestoreStage::Over(RestoreOutcome::Occupied) => {
                    let i = choose|i: int| #[trigger] move_failed_at(before, i, Place::Database);
                    assert(move_failed_at(steps, i, Place::Database));
                },
                RestoreStage::LookForOld
                | RestoreStage::PutBack
                | RestoreStage::LookForOldSidecar(_)
                | RestoreStage::PutBackSidecar(_)
                | RestoreStage::DropBackup
                | RestoreStage::Over(RestoreOutcome::RolledBack) => {
                    let i = choose|i: int| #[trigger] move_failed_at(before, i, Place::Backup);
                    assert(move_failed_at(steps, i, Place::Backup));
                },
                _ => {},
            }
        }
    }
}

/// A restore that is over has applied the backup that waited, unless there was none
/// or moving the database or the backup has failed: nothing else keeps it from that.
pub proof fn law_a_backup_is_applied_unless_a_move_fails(first: Files, steps: Seq<RestoreStep>)
    requires
        restores(first, steps),
        stage_reached(steps) is Over,
    ensures
        !first.contains_key(Place::Backup) ==> stage_reached(steps) == RestoreStage::Over(
            RestoreOutcome::NothingPending,
        ),
        first.contains_key(Place::Backup) && (forall|i: int|
            !#[trigger] move_failed_at(steps, i, Place::Database)) && (forall|i: int|
            !#[trigger] move_failed_at(steps, i, Place::Backup)) ==> stage_reached(steps)
            == RestoreStage::Over(RestoreOutcome::Applied),
        stage_reached(steps) == RestoreStage::Over(RestoreOutcome::RolledBack) ==> exists|i: int|
            #[trigger] move_failed_at(steps, i, Place::Backup),
        stage_reached(steps) == RestoreStage::Over(RestoreOutcome::Occupied) ==> exists|i: int|
            #[trigger] move_failed_at(steps, i, Place::Database),
{
    lemma_keeps(first, steps);
    lemma_causes(first, steps);
}

proof fn lemma_backup_gone(first: Files, steps: Seq<RestoreStep>)
    requires
        restores(first, steps),
        removals_work(first, steps),
    ensures
        stage_reached(steps) is Over ==> !files_reached(first, steps).contains_key(Place::Backup),
    decreases steps.len(),
{
    lemma_keeps(first, steps);
    if steps.len() > 0 {
        lemma_shorter(first, steps);
        lemma_backup_gone(first, steps.drop_last());
        assert(steps.take(steps.len() - 1) == steps.drop_last());
    }
}

/// Where removals work no backup is left once a restore is over, however it went: it
/// is never tried a second time.
pub proof fn law_no_backup_is_left(first: Files, steps: Seq<RestoreStep>)
    requires
        restores(first, steps),
        removals_work(first, steps),
        stage_reached(steps) is Over,
    ensures
        !files_reached(first, steps).contains_key(Place::Backup),
{
    lemma_backup_gone(first, steps);
}

} // verus!
