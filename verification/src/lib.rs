//! PowerEXT: a file rename monitor with backup and conversion.
//!
//! A pass of the watcher compares two snapshots of a directory tree ([`snapshot`]) and finds the
//! files whose extension was changed ([`watcher`]). What is done about one of them stands in
//! [`rename`], about a numbered sequence of them in [`merge`]; the conversions themselves in
//! [`converter`], [`job`] and [`merge_job`]. These decide; whoever uses them reads and writes
//! files, asks the user and runs programs, and reports back.
//!
//! The modules whose names end in `_laws` state what holds of all of it, over a model of the
//! files and of the records of backups ([`world`]).

pub mod backup;
pub mod converter;
pub mod converter_laws;
pub mod db;
pub mod job;
pub mod job_laws;
pub mod merge;
pub mod merge_job;
pub mod merge_laws;
pub mod notifier;
pub mod path;
pub mod pictures;
pub mod platform;
pub mod rename;
pub mod rename_laws;
pub mod service;
pub mod snapshot;
pub mod startup;
pub mod text;
pub mod text_laws;
pub mod tools;
pub mod watcher;
pub mod watcher_laws;
pub mod world;
