//! A task board: projects holding tasks that move through configurable
//! statuses, with the rules for naming task files, ordering and showing
//! tasks, and reacting to keys.
pub mod app;
pub mod config;
pub mod git;
pub mod project;
pub mod storage;
pub mod task;
pub mod text;
pub mod ui;
pub mod util;
pub mod view;
