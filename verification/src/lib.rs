//! A package manager for documents: versions, translations and change
//! requests on top of a plain store of files.
//!
//! The library decides and the caller reads and writes. Every operation
//! works on values: the latest snapshots and the archive of a package
//! (`store`), its pending changes (`workspace`), its change requests (`cr`,
//! `repository`), its track records (`tracker`) and the status of its
//! translation (`translation`); `sync` brings the workspace into the store.
//! `package`, `config`, `library` and `assets` hold what is known of a
//! package and write the documents that are made from it.

pub mod assets;
pub mod auth;
pub mod config;
pub mod cr;
pub mod diff;
pub mod error;
pub mod file;
pub mod file_map;
pub mod library;
pub mod package;
pub mod repository;
pub mod serve;
pub mod snapshot;
pub mod store;
pub mod sync;
pub mod text;
pub mod tracker;
pub mod translation;
pub mod workspace;
