use vstd::prelude::*;

pub mod text;
pub mod terminal_grid;
pub mod cell_text;
pub mod mouse;
pub mod selection;
pub mod input_rows;
pub mod input_layout;
pub mod input_motion;
pub mod input;
pub mod input_selection;
pub mod interaction;
pub mod render;
pub mod command_blocks;
pub mod config;
pub mod backend;
pub mod host;
pub mod containers;
pub mod diagnostics;
pub mod frame_timing;
pub mod perf_trace;
pub mod process_metrics;
pub mod bridge;
pub mod keyboard;
pub mod ghostty_snapshot;

verus! {

} // verus!
