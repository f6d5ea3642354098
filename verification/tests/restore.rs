use y2m::restore::{
    apply_pending_restore, place_path, Place, RestoreAction, RestoreOutcome, Sidecar, MOVE_ATTEMPTS,
};

const WAL: Place = Place::DatabaseSidecar(Sidecar::Wal);
const SHM: Place = Place::DatabaseSidecar(Sidecar::Shm);
const OLD_WAL: Place = Place::OldSidecar(Sidecar::Wal);
const OLD_SHM: Place = Place::OldSidecar(Sidecar::Shm);

/// Files by their places, some of which cannot be moved.
struct Disk {
    files: Vec<(Place, &'static str)>,
    stuck: Vec<Place>,
    moves: u64,
    pauses: u64,
}

fn disk(files: &[(Place, &'static str)], stuck: &[Place]) -> Disk {
    Disk { files: files.to_vec(), stuck: stuck.to_vec(), moves: 0, pauses: 0 }
}

impl Disk {
    fn at(&self, place: Place) -> Option<&'static str> {
        self.files.iter().find(|file| file.0 == place).map(|file| file.1)
    }

    fn remove(&mut self, place: Place) -> bool {
        let there = self.at(place).is_some();
        self.files.retain(|file| file.0 != place);
        there
    }

    fn restore(&mut self) -> RestoreOutcome {
        let mut stage = apply_pending_restore();
        loop {
            let yes = match stage.action() {
                RestoreAction::Finish(outcome) => return outcome,
                RestoreAction::Exists(place) => self.at(place).is_some(),
                RestoreAction::Remove(place) => self.remove(place),
                RestoreAction::Rename { from, to } => {
                    self.moves += 1;
                    match self.at(from) {
                        Some(text) if !self.stuck.contains(&from) => {
                            self.remove(from);
                            self.remove(to);
                            self.files.push((to, text));
                            true
                        }
                        _ => false,
                    }
                }
                RestoreAction::Pause => {
                    self.pauses += 1;
                    true
                }
            };
            stage = stage.next(yes);
        }
    }
}

#[test]
fn without_a_backup_nothing_happens() {
    let mut disk = disk(&[(Place::Database, "data"), (Place::Old, "older")], &[]);
    assert_eq!(disk.restore(), RestoreOutcome::NothingPending);
    assert_eq!(disk.files, [(Place::Database, "data"), (Place::Old, "older")]);
}

#[test]
fn a_backup_takes_the_place_of_the_database() {
    let files = [
        (Place::Database, "data"),
        (WAL, "log"),
        (SHM, "index"),
        (Place::Old, "older"),
        (OLD_WAL, "older log"),
        (Place::Backup, "backup"),
    ];
    let mut disk = disk(&files, &[]);
    assert_eq!(disk.restore(), RestoreOutcome::Applied);
    assert_eq!(disk.files, [(Place::Database, "backup")]);
}

#[test]
fn a_backup_is_applied_where_there_is_no_database() {
    let mut disk = disk(&[(Place::Backup, "backup")], &[]);
    assert_eq!(disk.restore(), RestoreOutcome::Applied);
    assert_eq!(disk.files, [(Place::Database, "backup")]);
}

#[test]
fn a_sidecar_that_cannot_be_moved_goes() {
    let files = [(Place::Database, "data"), (WAL, "log"), (Place::Backup, "backup")];
    let mut disk = disk(&files, &[WAL]);
    assert_eq!(disk.restore(), RestoreOutcome::Applied);
    assert_eq!(disk.files, [(Place::Database, "backup")]);
}

#[test]
fn a_failed_restore_changes_nothing() {
    let files = [
        (Place::Database, "data"),
        (WAL, "log"),
        (SHM, "index"),
        (Place::Backup, "backup"),
    ];
    let mut disk = disk(&files, &[Place::Backup]);
    assert_eq!(disk.restore(), RestoreOutcome::RolledBack);
    assert_eq!(disk.files.len(), 3);
    assert_eq!(disk.at(Place::Database), Some("data"));
    assert_eq!(disk.at(WAL), Some("log"));
    assert_eq!(disk.at(SHM), Some("index"));
}

#[test]
fn a_database_that_cannot_be_put_back_is_kept_beside() {
    let files = [(Place::Database, "data"), (Place::Backup, "backup")];
    let mut disk = disk(&files, &[Place::Backup, Place::Old]);
    assert_eq!(disk.restore(), RestoreOutcome::RolledBack);
    assert_eq!(disk.files, [(Place::Old, "data")]);
}

#[test]
fn a_database_that_is_held_fast_stays() {
    let files = [(Place::Database, "data"), (WAL, "log"), (Place::Backup, "backup")];
    let mut disk = disk(&files, &[Place::Database]);
    assert_eq!(disk.restore(), RestoreOutcome::Occupied);
    assert_eq!(disk.files, [(Place::Database, "data"), (WAL, "log")]);
    assert_eq!(disk.moves, MOVE_ATTEMPTS);
    assert_eq!(disk.pauses, MOVE_ATTEMPTS);
}

#[test]
fn every_place_has_its_path() {
    assert_eq!(place_path("y2m.sqlite3", Place::Database), "y2m.sqlite3");
    assert_eq!(place_path("y2m.sqlite3", WAL), "y2m.sqlite3-wal");
    assert_eq!(place_path("y2m.sqlite3", SHM), "y2m.sqlite3-shm");
    assert_eq!(place_path("y2m.sqlite3", Place::Old), "y2m.sqlite3.old");
    assert_eq!(place_path("y2m.sqlite3", OLD_WAL), "y2m.sqlite3.old-wal");
    assert_eq!(place_path("y2m.sqlite3", OLD_SHM), "y2m.sqlite3.old-shm");
    assert_eq!(place_path("y2m.sqlite3", Place::Backup), "y2m.sqlite3.restore");
}
