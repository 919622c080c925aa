//! Live repository diff dashboard: the verified state model behind the terminal view.
pub mod app;
pub mod controller;
pub mod diff;
pub mod event;
pub mod git;
pub mod pager;
pub mod text;
pub mod ui;
pub mod watcher;
