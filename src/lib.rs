//! A keyboard-driven directory browser's core: directory listings in a fixed
//! order, the navigation state machine over them, and the terminal output that
//! each transition calls for, stated as plain commands.
mod order;
mod render;
mod snapshot;
mod tab;

pub use order::{chars_lt, folded_lt, folded_precedes, lower_of, name_lt, name_precedes};
pub use render::{
    apply, blank_rows, block, clear_entries, clear_view, draw_entries, draw_view, fit, lemma_redraw_idempotent,
    line_entry, line_view, listing_rows, ops_view, pane_origin, pane_width, rows_ops, run, shown, spaces,
    text_cells, Op, Screen, Status, Style, TermOp, Viewport,
};
pub use snapshot::{
    index_in, lemma_listing_reproducible, lemma_sorted_index, listed, names, strictly_sorted,
    DirectorySnapshot, ScanEntry,
};
pub use tab::{
    ascends, cursor_in_range, cursor_row, descends, first_cursor, kept_as_child, lemma_moves_clamped,
    lemma_round_trip, lemma_tab_redraw, step_down, step_up, steps_down, steps_up, NavError, Tab,
};
