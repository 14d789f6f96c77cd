//! An in-process developer console: a bounded scrollback log, input-line
//! history, a command registry backed by `clap`, and the dispatch protocol
//! that ties them together.

pub mod text;
pub mod record;
pub mod history;
pub mod grammar;
pub mod pattern;
pub mod event;
pub mod distribute;
pub mod actuator;
pub mod dispatch;
pub mod panel;
pub mod ui;
pub mod commands;
