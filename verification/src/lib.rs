//! Core of a file-sorting daemon: ordered pattern rules, collision-free
//! destination names, and the decisions of the sweep-then-watch pipeline.
//!
//! The library never touches the file system. It works on paths as strings
//! and on facts that its caller has read (which paths exist, what a
//! directory walk produced, what a change notification reported) and answers
//! with the operations to perform.
pub mod config;
pub mod decimal;
pub mod executor;
pub mod naming;
pub mod paths;
pub mod task;
pub mod text;
pub mod watcher;
