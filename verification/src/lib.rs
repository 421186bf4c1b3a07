//! The storage rules of a file-backed task board: where things live under the
//! configured roots, which directory entries count as lanes and cards, how the
//! JSON side files are read and updated, what a mutation has to do on disk,
//! and when a change on disk is worth a notification.
//!
//! Nothing in this crate touches the file system. Callers read and write;
//! the functions here decide.

pub mod board;
pub mod config;
pub mod images;
pub mod paths;
pub mod resource;
pub mod store;
mod text;
pub mod timestamp;
pub mod watcher;
