//! A terminal system monitor: the layout of its screen (a grid of one cell
//! per CPU core, a memory panel, a process table), the text it shows, and the
//! state its main loop keeps: the snapshot on display and the scroll position
//! of the process table, which stays within the table as it changes.
//!
//! A small to-do list model lives in `tasks`.
use vstd::prelude::*;

pub mod app;
pub mod layout;
pub mod memory;
pub mod metrics;
pub mod processes;
pub mod tasks;
pub mod text;
pub mod ui;

verus! {

} // verus!
