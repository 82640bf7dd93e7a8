//! Decision core of a version guard: it locates an installed application,
//! snapshots version directories before they are deleted, and applies or lifts
//! a lockdown that keeps the application's own updater from running.
//!
//! The library never touches the disk, the registry or the process table. Each
//! operation is a function of the replies a host has given so far and returns
//! either the next request for the host or the finished result (`protocol`).
//! What an operation asks and returns is stated as a function of the history,
//! beside the code that computes it.
//!
//! The operations:
//! - `paths` chooses the install among what the host found;
//! - `backup` creates, lists, restores and deletes backups;
//! - `protector` applies and lifts the lockdown, derives its status, deletes
//!   versions and runs the whole protection;
//! - `cleaner`, `process`, `scanner`, `catalog` and `autostart` hold what goes
//!   with them: caches, running instances, installed and available versions,
//!   the start with the session.
//!
//! What holds of whole operations is stated over a disk as the requests take
//! it to be (`disk`): a restored backup brings back what was backed up
//! (`round_trip`), lifting the lockdown undoes applying it (`inverse`), the
//! status is a function of the disk that changes nothing (`derived`), and
//! versions deleted without a backup are gone all the same (`deletion`).

pub mod autostart;
pub mod backup;
pub mod catalog;
pub mod cleaner;
pub mod config;
pub mod deletion;
pub mod derived;
pub mod disk;
pub mod host;
pub mod inverse;
pub mod paths;
pub mod process;
pub mod protector;
pub mod protocol;
pub mod records;
pub mod round_trip;
pub mod scanner;
pub mod text;
