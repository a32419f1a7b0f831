//! An interactive multi-select list for the terminal, and the helpers that
//! turn version-control status lines into paths to stage.
//!
//! The library holds the logic: key decoding, the selector's state machine
//! with its scroll window, and the bookkeeping of each repaint. Reading keys,
//! switching the terminal mode and writing to the screen are left to the
//! program that drives it.

mod cli;
mod keys;
mod laws;
mod render;
mod selector;
mod status;
mod terminal;

pub use cli::has_help_flag;
pub use keys::{command_of_byte, command_of_window, decode_key, Command, KEY_WINDOW};
pub use laws::{
    law_cancel_and_force_quit_differ, law_confirm_depends_on_toggle_parity,
    law_confirm_ignores_marking_order, lemma_run_marks, lemma_toggle_all_lines,
    lemma_toggle_all_parity, occurrences, toggle_all, toggled_lines,
    law_cursor_stays_in_view, law_full_turn_returns, law_toggle_twice_restores,
    lemma_moves_down, lemma_moves_up, lemma_run_keeps_wf, lemma_step_keeps_wf, repeat,
};
pub use render::{
    draw_ops, erase_ops, erased_count, erases_before_printing, frame_ops,
    law_repaint_erases_previous, lemma_blank_counts, lemma_counts_concat, lemma_draw_counts,
    lemma_erase_counts, printed_count, viewport_height_for_rows, viewport_height_of, Renderer,
    TermOp, TermOpModel,
};
pub use selector::{
    exit_code_of, format_line, initial, lemma_selected_contents_take, marshal_strings_into_lines,
    max_top, selected_contents, selection_of, Line, LineModel, Outcome, OutcomeModel,
    SelectorModel, SelectorState,
};
pub use status::{
    char_utf8_len, contains_arrow, has_arrow, is_white_space, marshal_statuses_into_paths, path_of,
    skip_bytes, split_whitespace, split_words, status_rest, status_to_path, utf8_len, white_space,
    words,
};
