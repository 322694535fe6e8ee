//! A catalogue of comic series and chapters kept in step with a directory
//! tree: chapter numbers are read from file names, scanned files are
//! reconciled with the stored catalogue without touching read progress, and
//! the catalogue is projected into the lists a reader interface shows.

pub mod app;
pub mod catalog;
pub mod config;
pub mod download;
pub mod event;
pub mod extract;
pub mod image;
pub mod keys;
pub mod manga;
pub mod manga_indexer;
pub mod number;
pub mod reconcile;
pub mod rescan;
pub mod scanner;
pub mod schema;
pub mod session;
pub mod text;
pub mod theme;
pub mod ui_modern;
