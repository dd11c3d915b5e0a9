//! Core engine of an interactive terminal dashboard for filesystem
//! snapshots managed by an external snapshot utility.
//!
//! The library holds the session engine: the snapshot list with its
//! selection, sort and filter model, the modal interaction state machine,
//! and the single-slot bridge through which results of background backend
//! calls reach the foreground state. All terminal I/O, subprocess
//! invocation and rendering live outside the library; they hand plain
//! values in and take plain values back.

mod app;
mod events;
mod snapshot;
mod sort;
mod text;

pub use snapshot::{
    count_true, delete_outcome_counts, group_pairs, tag_with_configs, tagged_as, tagged_pairs,
    Snapshot,
};
pub use sort::{
    key_class, key_equiv, key_leq, lemma_key_total, lemma_key_trans, lemma_sort_len,
    lemma_sort_sorted, lemma_sort_stable, lemma_sort_toggle_restores, lemma_sorted_sort_id,
    snap_leq, sort_ordered, sorted_by_key, SortKey,
};
pub use text::{
    contains_seq, dec_rep, digit_char, lemma_lex_total, lemma_lex_trans, lex_leq, lex_leq_from,
    lower_of,
};
pub use app::{
    filtered_indices, filtered_view, format_size, lemma_empty_filter_keeps_all,
    lemma_filter_pure, lemma_filtered_indices_bounds, lemma_filtered_indices_complete,
    lemma_toggle_involution,
    matches_filter, scaled_tenths, scrolled, spec_format_size, spec_sort_indicator, tenths_rep,
    toggled, App, InputMode, LoadingMsg, StatusMsg, SPINNER_FRAME_COUNT,
};
pub use events::{
    apply_confirm_step, auto_status_step, bumped, click_step, create_input_step, cursor_target,
    delete_confirm_step, delete_targets, deliver_step, filter_input_step, in_normal_mode,
    is_submit_apply, is_submit_create, is_submit_delete, is_submit_fetch, is_submit_status,
    key_step, lemma_loaded_clears_multiselect, lemma_set_sort_twice_restores,
    lemma_superseded_result_dropped, lemma_toggle_twice_unchanged, mouse_step, normal_step, refresh_step,
    reset_cursor_for, scroll_step, set_sort_step, splash_step, submitted, toggle_step, Action,
    AsyncResult, Key, Mouse, Task,
};
