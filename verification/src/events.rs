//! The interaction engine: the single-slot bridge through which background
//! results reach the state, and the modal dispatch of key and mouse events.
//!
//! Background work itself (subprocess calls, threads, channels) lives in
//! the front end. The engine only decides: a dispatch call mutates the
//! state and hands back an `Action` — do nothing, quit, or run one
//! background task under a ticket. A finished task's result comes back
//! through `deliver` with its ticket, and is dropped silently if a newer
//! submission has replaced interest in it.

use vstd::prelude::*;
use crate::app::{App, StatusMsg, LoadingMsg, filtered_view, toggled};
use crate::snapshot::Snapshot;
use crate::sort::{SortKey, sort_ordered};
use crate::text::{string_push_char, string_pop_char};

verus! {

/// A key event, as the engine sees it.
#[derive(Clone, Copy, PartialEq, Eq, Structural)]
pub enum Key {
    Char(char),
    Enter,
    Esc,
    Backspace,
    Up,
    Down,
    Other,
}

/// A mouse event at a cell of the terminal grid.
#[derive(Clone, Copy, PartialEq, Eq, Structural)]
pub enum Mouse {
    ScrollUp { column: u16, row: u16 },
    ScrollDown { column: u16, row: u16 },
    LeftClick { column: u16, row: u16 },
}

/// A background operation the engine asks the front end to run.
#[derive(Clone, Debug, PartialEq, Eq)]
pub enum Task {
    /// Fetch the full snapshot list.
    FetchList,
    /// Delete each of these ids, counting successes and failures.
    DeleteMany(Vec<u32>),
    /// Create a snapshot with this description.
    Create(String),
    /// Roll back to this id.
    Apply(u32),
    /// Fetch the status report over this id range.
    FetchStatus { start: u32, end: u32 },
}

/// What the front end must do after a dispatch call.
#[derive(Clone, Debug, PartialEq, Eq)]
pub enum Action {
    /// Nothing.
    Idle,
    /// End the session.
    Quit,
    /// One background operation for the front end to start; its result
    /// comes back under this ticket.
    Submit { ticket: u64, task: Task },
}

/// The result a finished background operation delivers.
#[derive(Clone, Debug, PartialEq, Eq)]
pub enum AsyncResult {
    /// A fetched snapshot list.
    Snapshots(Vec<Snapshot>),
    /// Outcome counts of a bulk delete.
    Delete { success: usize, fail: usize },
    /// A snapshot with this description was created.
    Create(String),
    /// This id was rolled back to.
    Apply(u32),
    /// A status report's text.
    Status(String),
}

/// The ticket counter after one submission. It wraps at the top, so the
/// ticket of a fresh submission always differs from the one it replaces.
pub open spec fn bumped(t: u64) -> u64 {
    if t == u64::MAX {
        0u64
    } else {
        (t + 1) as u64
    }
}

/// The state after installing a fresh receiving slot for one submission,
/// replacing interest in any operation still outstanding.
pub open spec fn submitted(a: App) -> App {
    App { pending: Some(a.next_ticket), next_ticket: bumped(a.next_ticket), ..a }
}

/// The record under the cursor, when the cursor rests on one.
pub open spec fn cursor_target(a: App) -> Option<Snapshot> {
    match a.cursor {
        Some(c) => if c < a.fview().len() {
            Some(a.fview()[c as int])
        } else {
            None
        },
        None => None,
    }
}

/// `r` submits a status fetch under ticket `t` over the range belonging to
/// record `s`.
pub open spec fn is_submit_status(r: Action, t: u64, s: Snapshot) -> bool {
    match r {
        Action::Submit { ticket, task: Task::FetchStatus { start, end } } => {
            &&& ticket == t
            &&& start == s.spec_status_range_start()
            &&& end == s.number
        },
        _ => false,
    }
}

/// `r` submits a fetch of the snapshot list under ticket `t`.
pub open spec fn is_submit_fetch(r: Action, t: u64) -> bool {
    r == (Action::Submit { ticket: t, task: Task::FetchList })
}

/// One dispatch outcome that submits a status fetch for the record under
/// the cursor (as cursor movement does), or does nothing when the cursor
/// rests on no record.
pub open spec fn auto_status_step(mid: App, post: App, r: Action) -> bool {
    match cursor_target(mid) {
        Some(s) => {
            &&& post == (App {
                message: StatusMsg::FetchingStatus(s.number),
                pending: Some(mid.next_ticket),
                next_ticket: bumped(mid.next_ticket),
                ..mid
            })
            &&& is_submit_status(r, mid.next_ticket, s)
        },
        None => post == mid && r == Action::Idle,
    }
}

/// How a delivered result changes the state. A result whose ticket is not
/// the outstanding one is dropped without any effect — the operation it
/// belongs to was superseded by a newer submission.
pub open spec fn deliver_step(
    pre: App,
    ticket: u64,
    result: Result<AsyncResult, String>,
    post: App,
    r: Action,
) -> bool {
    if pre.pending != Some(ticket) {
        post == pre && r == Action::Idle
    } else {
        match result {
            Ok(AsyncResult::Snapshots(list)) => {
                let sorted = sort_ordered(list@, pre.current_sort_key, pre.sort_ascending);
                &&& post.snapshots@ == sorted
                &&& post.selected_ids@ == Seq::<u32>::empty()
                &&& post.cursor == (if filtered_view(sorted, pre.filter_input@).len() > 0 {
                    Some(0usize)
                } else {
                    None::<usize>
                })
                &&& post == (App {
                    snapshots: post.snapshots,
                    selected_ids: post.selected_ids,
                    cursor: post.cursor,
                    message: StatusMsg::Loaded(list@.len() as usize),
                    loading: false,
                    pending: None::<u64>,
                    ..pre
                })
                &&& r == Action::Idle
            },
            Ok(AsyncResult::Create(desc)) => {
                &&& post == (App {
                    message: StatusMsg::Created(desc),
                    loading: true,
                    loading_message: LoadingMsg::Refreshing,
                    pending: Some(pre.next_ticket),
                    next_ticket: bumped(pre.next_ticket),
                    ..pre
                })
                &&& is_submit_fetch(r, pre.next_ticket)
            },
            Ok(AsyncResult::Delete { success, fail }) => {
                &&& post.selected_ids@ == Seq::<u32>::empty()
                &&& post == (App {
                    message: if success > 0 || fail > 0 {
                        StatusMsg::Deleted { success, fail }
                    } else {
                        pre.message
                    },
                    selected_ids: post.selected_ids,
                    loading: true,
                    loading_message: LoadingMsg::Refreshing,
                    pending: Some(pre.next_ticket),
                    next_ticket: bumped(pre.next_ticket),
                    ..pre
                })
                &&& is_submit_fetch(r, pre.next_ticket)
            },
            Ok(AsyncResult::Apply(number)) => {
                &&& post == (App {
                    message: StatusMsg::Applied(number),
                    loading: false,
                    pending: None::<u64>,
                    ..pre
                })
                &&& r == Action::Idle
            },
            Ok(AsyncResult::Status(text)) => {
                &&& post == (App {
                    status_text: post.status_text,
                    message: StatusMsg::StatusLoaded,
                    status_scroll: 0u16,
                    loading: false,
                    pending: None::<u64>,
                    ..pre
                })
                &&& post.status_text == text
                &&& r == Action::Idle
            },
            Err(e) => {
                &&& post == (App {
                    message: StatusMsg::BackendError(e),
                    loading: false,
                    pending: None::<u64>,
                    ..pre
                })
                &&& r == Action::Idle
            },
        }
    }
}

/// `r` submits a bulk delete of exactly these ids under ticket `t`.
pub open spec fn is_submit_delete(r: Action, t: u64, ids: Seq<u32>) -> bool {
    match r {
        Action::Submit { ticket, task: Task::DeleteMany(v) } => ticket == t && v@ == ids,
        _ => false,
    }
}

/// `r` submits a create with exactly this description under ticket `t`.
pub open spec fn is_submit_create(r: Action, t: u64, desc: Seq<char>) -> bool {
    match r {
        Action::Submit { ticket, task: Task::Create(s) } => ticket == t && s@ == desc,
        _ => false,
    }
}

/// `r` submits a rollback to this id under ticket `t`.
pub open spec fn is_submit_apply(r: Action, t: u64, id: u32) -> bool {
    r == (Action::Submit { ticket: t, task: Task::Apply(id) })
}

/// The ids a destructive operation targets: the whole multi-select set
/// when non-empty, else the id under the cursor, else nothing.
pub open spec fn delete_targets(a: App) -> Seq<u32> {
    if a.selected_ids@.len() > 0 {
        a.selected_ids@
    } else {
        match cursor_target(a) {
            Some(s) => seq![s.number],
            None => Seq::empty(),
        }
    }
}

/// Where the cursor rests after a filter change: the first row of the
/// filtered view, or nowhere when the view is empty.
pub open spec fn reset_cursor_for(list: Seq<Snapshot>, f: Seq<char>) -> Option<usize> {
    if filtered_view(list, f).len() > 0 {
        Some(0usize)
    } else {
        None
    }
}

/// The refresh transition: the raw list is cleared (with the cursor and
/// the multi-select set, whose entries would dangle), loading is marked,
/// and a fetch is submitted.
pub open spec fn refresh_step(pre: App, post: App, r: Action) -> bool {
    &&& post.snapshots@ == Seq::<Snapshot>::empty()
    &&& post.selected_ids@ == Seq::<u32>::empty()
    &&& post == (App {
        snapshots: post.snapshots,
        selected_ids: post.selected_ids,
        cursor: None::<usize>,
        loading: true,
        loading_message: LoadingMsg::Refreshing,
        message: StatusMsg::FetchingSnapshots,
        pending: Some(pre.next_ticket),
        next_ticket: bumped(pre.next_ticket),
        ..pre
    })
    &&& is_submit_fetch(r, pre.next_ticket)
}

/// The sort-key transition: pressing the current key flips the direction,
/// any other key is adopted ascending; the list is re-sorted stably.
pub open spec fn set_sort_step(pre: App, key: SortKey, post: App) -> bool {
    let asc2 = if pre.current_sort_key == key {
        !pre.sort_ascending
    } else {
        true
    };
    &&& post == (App {
        current_sort_key: key,
        sort_ascending: asc2,
        snapshots: post.snapshots,
        ..pre
    })
    &&& post.snapshots@ == sort_ordered(pre.snapshots@, key, asc2)
}

/// Adopting the current sort key twice in a row returns the list to its
/// original order: the direction flips away and back, and both re-sorts
/// are stable.
pub proof fn lemma_set_sort_twice_restores(pre: App, mid: App, post: App, k: SortKey)
    requires
        pre.wf(),
        pre.current_sort_key == k,
        set_sort_step(pre, k, mid),
        set_sort_step(mid, k, post),
    ensures
        post.snapshots@ == pre.snapshots@,
{
    crate::sort::lemma_sort_toggle_restores(pre.snapshots@, k, pre.sort_ascending);
}

/// The selection-toggle transition: membership of the record under the
/// cursor is toggled in the multi-select set; without a record under the
/// cursor nothing changes.
pub open spec fn toggle_step(pre: App, post: App) -> bool {
    match cursor_target(pre) {
        Some(s) => {
            &&& post == (App { selected_ids: post.selected_ids, ..pre })
            &&& post.sel_set() == toggled(pre.sel_set(), s.number)
        },
        None => post == pre,
    }
}

/// Toggling the selection twice at the same cursor position leaves the
/// multi-select set as it was: the record under the cursor is unchanged
/// by the first toggle, so the second one undoes it.
pub proof fn lemma_toggle_twice_unchanged(pre: App, mid: App, post: App)
    requires
        toggle_step(pre, mid),
        toggle_step(mid, post),
    ensures
        post.sel_set() == pre.sel_set(),
{
    match cursor_target(pre) {
        Some(s) => {
            assert(cursor_target(mid) == Some(s));
            crate::app::lemma_toggle_involution(pre.sel_set(), s.number);
        },
        None => (),
    }
}

/// Any key dismisses the splash screen.
pub open spec fn splash_step(pre: App, key: Key, post: App, r: Action) -> bool {
    post == (App { show_splash: false, ..pre }) && r == Action::Idle
}

/// Keys while the delete confirmation is open: Enter computes the targets,
/// submits a bulk delete when there are any, and closes; Esc or 'q' closes
/// with no effect; everything else is ignored.
pub open spec fn delete_confirm_step(pre: App, key: Key, post: App, r: Action) -> bool {
    match key {
        Key::Enter => {
            let targets = delete_targets(pre);
            if targets.len() > 0 {
                &&& post == (App {
                    show_delete_popup: false,
                    loading: true,
                    loading_message: LoadingMsg::Deleting(targets.len() as usize),
                    pending: Some(pre.next_ticket),
                    next_ticket: bumped(pre.next_ticket),
                    ..pre
                })
                &&& is_submit_delete(r, pre.next_ticket, targets)
            } else {
                post == (App { show_delete_popup: false, ..pre }) && r == Action::Idle
            }
        },
        Key::Esc => post == (App { show_delete_popup: false, ..pre }) && r == Action::Idle,
        Key::Char(c) => if c == 'q' {
            post == (App { show_delete_popup: false, ..pre }) && r == Action::Idle
        } else {
            post == pre && r == Action::Idle
        },
        _ => post == pre && r == Action::Idle,
    }
}

/// Keys while the apply confirmation is open: Enter submits a rollback of
/// the record under the cursor (when there is one) and closes; Esc or 'q'
/// closes; everything else is ignored.
pub open spec fn apply_confirm_step(pre: App, key: Key, post: App, r: Action) -> bool {
    match key {
        Key::Enter => match cursor_target(pre) {
            Some(s) => {
                &&& post == (App {
                    show_apply_popup: false,
                    loading: true,
                    loading_message: LoadingMsg::Applying(s.number),
                    pending: Some(pre.next_ticket),
                    next_ticket: bumped(pre.next_ticket),
                    ..pre
                })
                &&& is_submit_apply(r, pre.next_ticket, s.number)
            },
            None => post == (App { show_apply_popup: false, ..pre }) && r == Action::Idle,
        },
        Key::Esc => post == (App { show_apply_popup: false, ..pre }) && r == Action::Idle,
        Key::Char(c) => if c == 'q' {
            post == (App { show_apply_popup: false, ..pre }) && r == Action::Idle
        } else {
            post == pre && r == Action::Idle
        },
        _ => post == pre && r == Action::Idle,
    }
}

/// Keys while the create input is open: printable characters grow the
/// buffer, Backspace shrinks it, Enter submits a create when the buffer is
/// non-empty (clearing it and closing), Esc clears and closes.
pub open spec fn create_input_step(pre: App, key: Key, post: App, r: Action) -> bool {
    match key {
        Key::Enter => if pre.create_input@.len() > 0 {
            &&& post == (App {
                show_create_popup: false,
                create_input: post.create_input,
                loading: true,
                loading_message: LoadingMsg::Creating,
                pending: Some(pre.next_ticket),
                next_ticket: bumped(pre.next_ticket),
                ..pre
            })
            &&& post.create_input@ == Seq::<char>::empty()
            &&& is_submit_create(r, pre.next_ticket, pre.create_input@)
        } else {
            post == pre && r == Action::Idle
        },
        Key::Esc => {
            &&& post == (App {
                show_create_popup: false,
                create_input: post.create_input,
                ..pre
            })
            &&& post.create_input@ == Seq::<char>::empty()
            &&& r == Action::Idle
        },
        Key::Char(c) => {
            &&& post == (App { create_input: post.create_input, ..pre })
            &&& post.create_input@ == pre.create_input@.push(c)
            &&& r == Action::Idle
        },
        Key::Backspace => {
            &&& post == (App { create_input: post.create_input, ..pre })
            &&& post.create_input@ == (if pre.create_input@.len() > 0 {
                pre.create_input@.drop_last()
            } else {
                pre.create_input@
            })
            &&& r == Action::Idle
        },
        _ => post == pre && r == Action::Idle,
    }
}

/// Keys while the filter input owns the keyboard: printable characters
/// grow the filter text and rest the cursor on the first matching row,
/// Backspace shrinks it likewise, Enter commits (the text persists), Esc
/// clears the text and rests the cursor on the first row.
pub open spec fn filter_input_step(pre: App, key: Key, post: App, r: Action) -> bool {
    match key {
        Key::Enter => post == (App { filtering: false, ..pre }) && r == Action::Idle,
        Key::Esc => {
            &&& post == (App {
                filtering: false,
                filter_input: post.filter_input,
                cursor: reset_cursor_for(pre.snapshots@, Seq::<char>::empty()),
                ..pre
            })
            &&& post.filter_input@ == Seq::<char>::empty()
            &&& r == Action::Idle
        },
        Key::Char(c) => {
            &&& post == (App {
                filter_input: post.filter_input,
                cursor: reset_cursor_for(pre.snapshots@, pre.filter_input@.push(c)),
                ..pre
            })
            &&& post.filter_input@ == pre.filter_input@.push(c)
            &&& r == Action::Idle
        },
        Key::Backspace => {
            let shrunk = if pre.filter_input@.len() > 0 {
                pre.filter_input@.drop_last()
            } else {
                pre.filter_input@
            };
            &&& post == (App {
                filter_input: post.filter_input,
                cursor: reset_cursor_for(pre.snapshots@, shrunk),
                ..pre
            })
            &&& post.filter_input@ == shrunk
            &&& r == Action::Idle
        },
        _ => post == pre && r == Action::Idle,
    }
}

/// Keys in normal mode: quit, refresh, overlay entry, cursor movement with
/// its automatic status fetch, selection toggle, status fetch, and the
/// five sort keys. Apply and status are blocked with a message while the
/// multi-select set is non-empty.
pub open spec fn normal_step(pre: App, key: Key, post: App, r: Action) -> bool {
    match key {
        Key::Char(c) => {
            if c == 'q' || c == 'Q' {
                post == pre && r == Action::Quit
            } else if c == 'c' || c == 'C' {
                post == (App { show_create_popup: true, ..pre }) && r == Action::Idle
            } else if c == '/' {
                post == (App { filtering: true, ..pre }) && r == Action::Idle
            } else if c == 'r' || c == 'R' {
                refresh_step(pre, post, r)
            } else if c == 'a' || c == 'A' {
                if pre.selected_ids@.len() > 0 {
                    post == (App { message: StatusMsg::ApplyBlockedByMultiSelect, ..pre })
                        && r == Action::Idle
                } else {
                    post == (App { show_apply_popup: true, ..pre }) && r == Action::Idle
                }
            } else if c == 'd' || c == 'D' {
                post == (App { show_delete_popup: true, ..pre }) && r == Action::Idle
            } else if c == 's' || c == 'S' {
                if pre.selected_ids@.len() > 0 {
                    post == (App { message: StatusMsg::StatusBlockedByMultiSelect, ..pre })
                        && r == Action::Idle
                } else {
                    match cursor_target(pre) {
                        Some(s) => {
                            &&& post == (App {
                                loading: true,
                                loading_message: LoadingMsg::FetchingStatus(s.number),
                                pending: Some(pre.next_ticket),
                                next_ticket: bumped(pre.next_ticket),
                                ..pre
                            })
                            &&& is_submit_status(r, pre.next_ticket, s)
                        },
                        None => post == pre && r == Action::Idle,
                    }
                }
            } else if c == ' ' {
                toggle_step(pre, post) && r == Action::Idle
            } else if c == '1' {
                set_sort_step(pre, SortKey::Number, post) && r == Action::Idle
            } else if c == '2' {
                set_sort_step(pre, SortKey::Type, post) && r == Action::Idle
            } else if c == '3' {
                set_sort_step(pre, SortKey::Date, post) && r == Action::Idle
            } else if c == '4' {
                set_sort_step(pre, SortKey::User, post) && r == Action::Idle
            } else if c == '5' {
                set_sort_step(pre, SortKey::UsedSpace, post) && r == Action::Idle
            } else {
                post == pre && r == Action::Idle
            }
        },
        Key::Down => auto_status_step(App { cursor: pre.next_cursor(), ..pre }, post, r),
        Key::Up => auto_status_step(App { cursor: pre.previous_cursor(), ..pre }, post, r),
        _ => post == pre && r == Action::Idle,
    }
}

/// No overlay owns the keyboard: pointer events act only here.
pub open spec fn in_normal_mode(a: App) -> bool {
    &&& !a.show_splash
    &&& !a.show_delete_popup
    &&& !a.show_apply_popup
    &&& !a.show_create_popup
    &&& !a.filtering
}

/// A wheel notch over the right panel scrolls the pane under the pointer
/// by one line; anywhere else it does nothing. The layout constants are
/// those of the rendered screen: a seven-row header block, a five-row
/// footer block, the main area split in half with the right panel's top
/// two fifths showing details.
pub open spec fn scroll_step(
    pre: App,
    column: u16,
    row: u16,
    w: u16,
    h: u16,
    up: bool,
    post: App,
) -> bool {
    let main_end = if h >= 5 {
        h - 5
    } else {
        0
    };
    if 7 <= row && row < main_end && column >= w / 2 {
        let details_end = 7 + ((main_end - 7) * 40) / 100;
        if row < details_end {
            post == (App { details_scroll: crate::app::scrolled(pre.details_scroll, up), ..pre })
        } else {
            post == (App { status_scroll: crate::app::scrolled(pre.status_scroll, up), ..pre })
        }
    } else {
        post == pre
    }
}

/// A left click: footer buttons act like their keys (delete, apply,
/// status, refresh, quit); a click on the table header adopts the sort
/// key of that column; a click on a table row within the filtered view
/// re-targets the cursor and fetches that record's status.
pub open spec fn click_step(
    pre: App,
    column: u16,
    row: u16,
    w: u16,
    h: u16,
    post: App,
    r: Action,
) -> bool {
    let footer_row = if h >= 4 {
        h - 4
    } else {
        0
    };
    let bottom = if h >= 1 {
        h - 1
    } else {
        0
    };
    if row >= footer_row && row < bottom {
        if 10 <= column && column < 20 {
            normal_step(pre, Key::Char('d'), post, r)
        } else if 20 <= column && column < 30 {
            normal_step(pre, Key::Char('a'), post, r)
        } else if 30 <= column && column < 40 {
            normal_step(pre, Key::Char('s'), post, r)
        } else if 40 <= column && column < 50 {
            normal_step(pre, Key::Char('r'), post, r)
        } else if 50 <= column && column < 60 {
            post == pre && r == Action::Quit
        } else {
            post == pre && r == Action::Idle
        }
    } else if row >= 7 && row < footer_row && 2 <= column && column < w / 2 {
        let col_x = column - 2;
        if row == 8 {
            if col_x < 9 {
                set_sort_step(pre, SortKey::Number, post) && r == Action::Idle
            } else if col_x < 19 {
                set_sort_step(pre, SortKey::Type, post) && r == Action::Idle
            } else if col_x < 41 {
                set_sort_step(pre, SortKey::Date, post) && r == Action::Idle
            } else if col_x < 53 {
                set_sort_step(pre, SortKey::User, post) && r == Action::Idle
            } else if col_x < 65 {
                set_sort_step(pre, SortKey::UsedSpace, post) && r == Action::Idle
            } else {
                post == pre && r == Action::Idle
            }
        } else if row >= 9 {
            let target = (row - 9) as usize;
            if target < pre.fview().len() {
                auto_status_step(App { cursor: Some(target), ..pre }, post, r)
            } else {
                post == pre && r == Action::Idle
            }
        } else {
            post == pre && r == Action::Idle
        }
    } else {
        post == pre && r == Action::Idle
    }
}

/// One mouse event's whole effect. While an overlay owns the keyboard,
/// pointer events are ignored.
pub open spec fn mouse_step(pre: App, m: Mouse, w: u16, h: u16, post: App, r: Action) -> bool {
    if !in_normal_mode(pre) {
        post == pre && r == Action::Idle
    } else {
        match m {
            Mouse::ScrollUp { column, row } => scroll_step(pre, column, row, w, h, true, post)
                && r == Action::Idle,
            Mouse::ScrollDown { column, row } => scroll_step(pre, column, row, w, h, false, post)
                && r == Action::Idle,
            Mouse::LeftClick { column, row } => click_step(pre, column, row, w, h, post, r),
        }
    }
}

/// One key event's whole effect, by the precedence of the modal states:
/// splash, then delete confirm, then apply confirm, then create input,
/// then filter input, then normal mode.
pub open spec fn key_step(pre: App, key: Key, post: App, r: Action) -> bool {
    if pre.show_splash {
        splash_step(pre, key, post, r)
    } else if pre.show_delete_popup {
        delete_confirm_step(pre, key, post, r)
    } else if pre.show_apply_popup {
        apply_confirm_step(pre, key, post, r)
    } else if pre.show_create_popup {
        create_input_step(pre, key, post, r)
    } else if pre.filtering {
        filter_input_step(pre, key, post, r)
    } else {
        normal_step(pre, key, post, r)
    }
}

/// A delivered snapshot list always leaves the multi-select set empty,
/// whatever it held before: the fresh list invalidates every earlier
/// selection.
pub proof fn lemma_loaded_clears_multiselect(
    pre: App,
    ticket: u64,
    list: Vec<Snapshot>,
    post: App,
    r: Action,
)
    requires
        pre.pending == Some(ticket),
        deliver_step(pre, ticket, Ok(AsyncResult::Snapshots(list)), post, r),
    ensures
        post.selected_ids@ == Seq::<u32>::empty(),
{
}

/// A superseded operation's result is dropped: while the operation under
/// `t_old` is still outstanding, a new submission replaces the receiving
/// slot; when the earlier operation's result arrives afterwards, it
/// changes nothing and asks for nothing.
pub proof fn lemma_superseded_result_dropped(
    pre: App,
    t_old: u64,
    result: Result<AsyncResult, String>,
    post: App,
    r: Action,
)
    requires
        pre.wf(),
        pre.pending == Some(t_old),
        deliver_step(submitted(pre), t_old, result, post, r),
    ensures
        post == submitted(pre),
        r == Action::Idle,
{
}

impl App {
    /// Installs a fresh receiving slot for one background operation,
    /// replacing any previous one. The returned ticket differs from the
    /// next one, so a later submission always supersedes this one.
    fn begin_submit(&mut self) -> (t: u64)
        ensures
            *final(self) == submitted(*old(self)),
            t == old(self).next_ticket,
            final(self).pending == Some(t),
            t != final(self).next_ticket,
    {
        let t = self.next_ticket;
        self.pending = Some(t);
        self.next_ticket = if t == u64::MAX {
            0
        } else {
            t + 1
        };
        t
    }

    /// Starts a refresh: clears the raw list (and with it the cursor and
    /// the multi-select set, whose entries would dangle), marks loading,
    /// and submits a fetch of the snapshot list.
    pub fn refresh_snapshots(&mut self) -> (r: Action)
        requires
            old(self).wf(),
        ensures
            final(self).wf(),
            refresh_step(*old(self), *final(self), r),
    {
        self.loading = true;
        self.loading_message = LoadingMsg::Refreshing;
        self.message = StatusMsg::FetchingSnapshots;
        self.snapshots.clear();
        self.cursor = None;
        self.selected_ids.clear();
        let t = self.begin_submit();
        Action::Submit { ticket: t, task: Task::FetchList }
    }

    /// Submits a status fetch for the record under the cursor, as cursor
    /// movement does after each step; nothing happens when the cursor
    /// rests on no record.
    pub fn get_status_selected_snapshot(&mut self) -> (r: Action)
        ensures
            auto_status_step(*old(self), *final(self), r),
    {
        let target = match self.get_selected_snapshot() {
            Some(snap) => Some((snap.number, snap.status_range())),
            None => None,
        };
        match target {
            Some((number, range)) => {
                self.message = StatusMsg::FetchingStatus(number);
                let t = self.begin_submit();
                Action::Submit { ticket: t, task: Task::FetchStatus { start: range.0, end: range.1 } }
            },
            None => Action::Idle,
        }
    }

    /// Consumes a delivered result. Only a result carrying the ticket of
    /// the outstanding operation is applied; any other is dropped with no
    /// effect on the state. An applied fetch replaces the raw list (sorted
    /// by the current key), empties the multi-select set and rests the
    /// cursor on the first row; an applied create or delete outcome chains
    /// a fresh fetch; a failure only sets the message.
    pub fn deliver(&mut self, ticket: u64, result: Result<AsyncResult, String>) -> (r: Action)
        requires
            old(self).wf(),
        ensures
            final(self).wf(),
            deliver_step(*old(self), ticket, result, *final(self), r),
    {
        let accept = match self.pending {
            Some(p) => p == ticket,
            None => false,
        };
        if !accept {
            return Action::Idle;
        }
        self.loading = false;
        self.pending = None;
        match result {
            Ok(AsyncResult::Snapshots(list)) => {
                let n = list.len();
                self.snapshots = list;
                self.sort_snapshots();
                self.clear_selections();
                let flen = self.filtered_raw_indices().len();
                self.cursor = if flen > 0 {
                    Some(0)
                } else {
                    None
                };
                self.message = StatusMsg::Loaded(n);
                Action::Idle
            },
            Ok(AsyncResult::Create(desc)) => {
                self.message = StatusMsg::Created(desc);
                self.loading = true;
                self.loading_message = LoadingMsg::Refreshing;
                let t = self.begin_submit();
                Action::Submit { ticket: t, task: Task::FetchList }
            },
            Ok(AsyncResult::Delete { success, fail }) => {
                self.handle_delete_result(success, fail);
                self.loading = true;
                self.loading_message = LoadingMsg::Refreshing;
                let t = self.begin_submit();
                Action::Submit { ticket: t, task: Task::FetchList }
            },
            Ok(AsyncResult::Apply(number)) => {
                self.message = StatusMsg::Applied(number);
                Action::Idle
            },
            Ok(AsyncResult::Status(text)) => {
                self.status_text = text;
                self.message = StatusMsg::StatusLoaded;
                self.status_scroll = 0;
                Action::Idle
            },
            Err(e) => {
                self.message = StatusMsg::BackendError(e);
                Action::Idle
            },
        }
    }

    /// Dispatches one key event by the precedence of the modal states:
    /// splash, delete confirm, apply confirm, create input, filter input,
    /// normal mode. Exactly one of them handles the key.
    pub fn handle_key(&mut self, key: Key) -> (r: Action)
        requires
            old(self).wf(),
        ensures
            final(self).wf(),
            key_step(*old(self), key, *final(self), r),
    {
        if self.show_splash {
            self.show_splash = false;
            Action::Idle
        } else if self.show_delete_popup {
            self.key_delete_confirm(key)
        } else if self.show_apply_popup {
            self.key_apply_confirm(key)
        } else if self.show_create_popup {
            self.key_create_input(key)
        } else if self.filtering {
            self.key_filter_input(key)
        } else {
            self.key_normal(key)
        }
    }

    fn key_delete_confirm(&mut self, key: Key) -> (r: Action)
        requires
            old(self).wf(),
        ensures
            final(self).wf(),
            delete_confirm_step(*old(self), key, *final(self), r),
    {
        match key {
            Key::Enter => {
                let targets = self.get_targets_for_delete();
                self.show_delete_popup = false;
                if targets.len() > 0 {
                    let n = targets.len();
                    self.loading = true;
                    self.loading_message = LoadingMsg::Deleting(n);
                    let t = self.begin_submit();
                    Action::Submit { ticket: t, task: Task::DeleteMany(targets) }
                } else {
                    Action::Idle
                }
            },
            Key::Esc => {
                self.show_delete_popup = false;
                Action::Idle
            },
            Key::Char(c) => {
                if c == 'q' {
                    self.show_delete_popup = false;
                }
                Action::Idle
            },
            _ => Action::Idle,
        }
    }

    fn key_apply_confirm(&mut self, key: Key) -> (r: Action)
        requires
            old(self).wf(),
        ensures
            final(self).wf(),
            apply_confirm_step(*old(self), key, *final(self), r),
    {
        match key {
            Key::Enter => {
                let target = self.get_target_for_apply();
                self.show_apply_popup = false;
                match target {
                    Some(number) => {
                        self.loading = true;
                        self.loading_message = LoadingMsg::Applying(number);
                        let t = self.begin_submit();
                        Action::Submit { ticket: t, task: Task::Apply(number) }
                    },
                    None => Action::Idle,
                }
            },
            Key::Esc => {
                self.show_apply_popup = false;
                Action::Idle
            },
            Key::Char(c) => {
                if c == 'q' {
                    self.show_apply_popup = false;
                }
                Action::Idle
            },
            _ => Action::Idle,
        }
    }

    fn key_create_input(&mut self, key: Key) -> (r: Action)
        requires
            old(self).wf(),
        ensures
            final(self).wf(),
            create_input_step(*old(self), key, *final(self), r),
    {
        match key {
            Key::Enter => {
                if !self.create_input.as_str().is_empty() {
                    let input = self.create_input.clone();
                    self.create_input = String::new();
                    self.show_create_popup = false;
                    self.loading = true;
                    self.loading_message = LoadingMsg::Creating;
                    let t = self.begin_submit();
                    Action::Submit { ticket: t, task: Task::Create(input) }
                } else {
                    Action::Idle
                }
            },
            Key::Esc => {
                self.show_create_popup = false;
                self.create_input = String::new();
                Action::Idle
            },
            Key::Char(c) => {
                string_push_char(&mut self.create_input, c);
                Action::Idle
            },
            Key::Backspace => {
                let _ = string_pop_char(&mut self.create_input);
                Action::Idle
            },
            _ => Action::Idle,
        }
    }

    fn key_filter_input(&mut self, key: Key) -> (r: Action)
        requires
            old(self).wf(),
        ensures
            final(self).wf(),
            filter_input_step(*old(self), key, *final(self), r),
    {
        match key {
            Key::Enter => {
                self.filtering = false;
                Action::Idle
            },
            Key::Esc => {
                self.filtering = false;
                self.filter_input = String::new();
                self.reset_cursor();
                Action::Idle
            },
            Key::Char(c) => {
                string_push_char(&mut self.filter_input, c);
                self.reset_cursor();
                Action::Idle
            },
            Key::Backspace => {
                let _ = string_pop_char(&mut self.filter_input);
                self.reset_cursor();
                Action::Idle
            },
            _ => Action::Idle,
        }
    }

    /// Rests the cursor on the first row of the filtered view, or nowhere
    /// when the view is empty.
    fn reset_cursor(&mut self)
        ensures
            *final(self) == (App {
                cursor: reset_cursor_for(old(self).snapshots@, old(self).filter_input@),
                ..*old(self)
            }),
    {
        let flen = self.filtered_raw_indices().len();
        self.cursor = if flen > 0 {
            Some(0)
        } else {
            None
        };
    }

    fn key_normal(&mut self, key: Key) -> (r: Action)
        requires
            old(self).wf(),
        ensures
            final(self).wf(),
            normal_step(*old(self), key, *final(self), r),
    {
        match key {
            Key::Char(c) => {
                if c == 'q' || c == 'Q' {
                    Action::Quit
                } else if c == 'c' || c == 'C' {
                    self.show_create_popup = true;
                    Action::Idle
                } else if c == '/' {
                    self.filtering = true;
                    Action::Idle
                } else if c == 'r' || c == 'R' {
                    self.refresh_snapshots()
                } else if c == 'a' || c == 'A' {
                    if self.get_selected_count() > 0 {
                        self.message = StatusMsg::ApplyBlockedByMultiSelect;
                    } else {
                        self.show_apply_popup = true;
                    }
                    Action::Idle
                } else if c == 'd' || c == 'D' {
                    self.show_delete_popup = true;
                    Action::Idle
                } else if c == 's' || c == 'S' {
                    if self.get_selected_count() > 0 {
                        self.message = StatusMsg::StatusBlockedByMultiSelect;
                        Action::Idle
                    } else {
                        let target = match self.get_selected_snapshot() {
                            Some(snap) => Some((snap.number, snap.status_range())),
                            None => None,
                        };
                        match target {
                            Some((number, range)) => {
                                self.loading = true;
                                self.loading_message = LoadingMsg::FetchingStatus(number);
                                let t = self.begin_submit();
                                Action::Submit {
                                    ticket: t,
                                    task: Task::FetchStatus { start: range.0, end: range.1 },
                                }
                            },
                            None => Action::Idle,
                        }
                    }
                } else if c == ' ' {
                    self.toggle_selection();
                    Action::Idle
                } else if c == '1' {
                    self.set_sort_key(SortKey::Number);
                    Action::Idle
                } else if c == '2' {
                    self.set_sort_key(SortKey::Type);
                    Action::Idle
                } else if c == '3' {
                    self.set_sort_key(SortKey::Date);
                    Action::Idle
                } else if c == '4' {
                    self.set_sort_key(SortKey::User);
                    Action::Idle
                } else if c == '5' {
                    self.set_sort_key(SortKey::UsedSpace);
                    Action::Idle
                } else {
                    Action::Idle
                }
            },
            Key::Down => {
                self.next();
                self.get_status_selected_snapshot()
            },
            Key::Up => {
                self.previous();
                self.get_status_selected_snapshot()
            },
            _ => Action::Idle,
        }
    }

    /// Dispatches one mouse event against the rendered layout of a
    /// `w` x `h` terminal. Pointer events act only while no overlay owns
    /// the keyboard.
    pub fn handle_mouse(&mut self, m: Mouse, w: u16, h: u16) -> (r: Action)
        requires
            old(self).wf(),
        ensures
            final(self).wf(),
            mouse_step(*old(self), m, w, h, *final(self), r),
    {
        let normal = !self.show_splash && !self.show_delete_popup && !self.show_apply_popup
            && !self.show_create_popup && !self.filtering;
        if !normal {
            return Action::Idle;
        }
        match m {
            Mouse::ScrollUp { column, row } => {
                self.scroll_at(column, row, w, h, true);
                Action::Idle
            },
            Mouse::ScrollDown { column, row } => {
                self.scroll_at(column, row, w, h, false);
                Action::Idle
            },
            Mouse::LeftClick { column, row } => self.click_at(column, row, w, h),
        }
    }

    fn scroll_at(&mut self, column: u16, row: u16, w: u16, h: u16, up: bool)
        ensures
            scroll_step(*old(self), column, row, w, h, up, *final(self)),
    {
        let main_end = if h >= 5 {
            h - 5
        } else {
            0
        };
        if 7 <= row && row < main_end && column >= w / 2 {
            let details_end: u32 = 7 + ((main_end - 7) as u32 * 40) / 100;
            if (row as u32) < details_end {
                self.scroll_details(up);
            } else {
                self.scroll_status(up);
            }
        }
    }

    fn click_at(&mut self, column: u16, row: u16, w: u16, h: u16) -> (r: Action)
        requires
            old(self).wf(),
        ensures
            final(self).wf(),
            click_step(*old(self), column, row, w, h, *final(self), r),
    {
        let footer_row = if h >= 4 {
            h - 4
        } else {
            0
        };
        let bottom = if h >= 1 {
            h - 1
        } else {
            0
        };
        if row >= footer_row && row < bottom {
            if 10 <= column && column < 20 {
                self.key_normal(Key::Char('d'))
            } else if 20 <= column && column < 30 {
                self.key_normal(Key::Char('a'))
            } else if 30 <= column && column < 40 {
                self.key_normal(Key::Char('s'))
            } else if 40 <= column && column < 50 {
                self.key_normal(Key::Char('r'))
            } else if 50 <= column && column < 60 {
                Action::Quit
            } else {
                Action::Idle
            }
        } else if row >= 7 && row < footer_row && 2 <= column && column < w / 2 {
            let col_x = column - 2;
            if row == 8 {
                if col_x < 9 {
                    self.set_sort_key(SortKey::Number);
                } else if col_x < 19 {
                    self.set_sort_key(SortKey::Type);
                } else if col_x < 41 {
                    self.set_sort_key(SortKey::Date);
                } else if col_x < 53 {
                    self.set_sort_key(SortKey::User);
                } else if col_x < 65 {
                    self.set_sort_key(SortKey::UsedSpace);
                }
                Action::Idle
            } else if row >= 9 {
                let target = (row - 9) as usize;
                let flen = self.filtered_raw_indices().len();
                if target < flen {
                    self.cursor = Some(target);
                    self.get_status_selected_snapshot()
                } else {
                    Action::Idle
                }
            } else {
                Action::Idle
            }
        } else {
            Action::Idle
        }
    }
}

} // verus!
