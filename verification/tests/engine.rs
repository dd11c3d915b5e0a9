use snaptui::{
    Action, App, AsyncResult, Key, LoadingMsg, Mouse, Snapshot, SortKey, StatusMsg, Task,
};

fn snap(number: u32, desc: &str, user: &str) -> Snapshot {
    Snapshot {
        config: String::from("root"),
        subvolume: String::from("/"),
        number,
        snapshot_type: String::from("single"),
        pre_number: None,
        post_number: None,
        date: String::from("2024-01-01"),
        user: String::from(user),
        cleanup: None,
        description: String::from(desc),
        userdata: None,
        used_space: None,
        default: false,
        active: false,
    }
}

fn ticket_of(a: &Action) -> u64 {
    match a {
        Action::Submit { ticket, .. } => *ticket,
        _ => panic!("expected a submission"),
    }
}

fn loaded_app(snaps: Vec<Snapshot>) -> App {
    let mut app = App::new();
    app.show_splash = false;
    let act = app.refresh_snapshots();
    let t = ticket_of(&act);
    let follow = app.deliver(t, Ok(AsyncResult::Snapshots(snaps)));
    assert!(matches!(follow, Action::Idle));
    app
}

#[test]
fn toggle_selection_is_its_own_inverse() {
    let mut app = loaded_app(vec![snap(1, "", "u"), snap(2, "", "u")]);
    app.cursor = Some(1);
    let before = app.selected_ids.clone();
    app.toggle_selection();
    assert_eq!(app.selected_ids, vec![2]);
    app.toggle_selection();
    assert_eq!(app.selected_ids, before);
}

#[test]
fn targets_for_destructive_op() {
    let mut app = loaded_app(vec![snap(1, "", "u"), snap(2, "", "u"), snap(3, "", "u")]);
    // multi-select set non-empty: the whole set, the cursor is ignored
    app.cursor = Some(0);
    app.selected_ids = vec![3, 2];
    assert_eq!(app.get_targets_for_delete(), vec![3, 2]);
    // multi-select empty: exactly the id under the cursor
    app.selected_ids = vec![];
    app.cursor = Some(1);
    assert_eq!(app.get_targets_for_delete(), vec![2]);
    // no cursor: nothing
    app.cursor = None;
    assert_eq!(app.get_targets_for_delete(), Vec::<u32>::new());
}

#[test]
fn snapshots_loaded_always_clears_multiselect() {
    let mut app = loaded_app(vec![snap(1, "", "u"), snap(2, "", "u")]);
    app.cursor = Some(0);
    app.toggle_selection();
    assert_eq!(app.selected_ids.len(), 1);
    app.pending = Some(77);
    let act = app.deliver(77, Ok(AsyncResult::Snapshots(vec![snap(5, "", "u")])));
    assert!(matches!(act, Action::Idle));
    assert!(app.selected_ids.is_empty());
}

#[test]
fn stale_result_is_dropped() {
    let mut app = App::new();
    app.show_splash = false;
    let first = app.refresh_snapshots();
    let t1 = ticket_of(&first);
    let second = app.refresh_snapshots();
    let t2 = ticket_of(&second);
    assert_ne!(t1, t2);
    // the first operation finishes only after the second was submitted:
    // its result must not reach the state
    let act = app.deliver(t1, Ok(AsyncResult::Snapshots(vec![snap(9, "", "u")])));
    assert!(matches!(act, Action::Idle));
    assert!(app.snapshots.is_empty());
    assert!(app.loading);
    assert_eq!(app.pending, Some(t2));
    // the second one's result is applied
    app.deliver(t2, Ok(AsyncResult::Snapshots(vec![snap(4, "", "u")])));
    assert_eq!(app.snapshots.len(), 1);
    assert_eq!(app.snapshots[0].number, 4);
}

#[test]
fn load_scenario_sets_cursor_and_count_message() {
    let mut app = App::new();
    assert!(app.loading);
    assert!(app.snapshots.is_empty());
    app.show_splash = false;
    let act = app.refresh_snapshots();
    let t = ticket_of(&act);
    app.deliver(t, Ok(AsyncResult::Snapshots(vec![snap(5, "five", "u")])));
    assert!(!app.loading);
    assert_eq!(app.cursor, Some(0));
    // the message carries the count: it "mentions 1"
    assert_eq!(app.message, StatusMsg::Loaded(1));
}

#[test]
fn apply_scenario_submits_single_rollback() {
    let mut app = loaded_app(vec![snap(7, "", "u")]);
    assert_eq!(app.cursor, Some(0));
    assert!(app.selected_ids.is_empty());
    let first = app.handle_key(Key::Char('a'));
    // entering the confirmation submits nothing yet
    assert!(matches!(first, Action::Idle));
    assert!(app.show_apply_popup);
    let second = app.handle_key(Key::Enter);
    // exactly one task: the rollback of id 7, and the overlay is gone
    // before it completes
    match second {
        Action::Submit { task: Task::Apply(7), .. } => (),
        other => panic!("expected a rollback submission, got {:?}", other),
    }
    assert!(!app.show_apply_popup);
    assert!(app.loading);
    assert_eq!(app.loading_message, LoadingMsg::Applying(7));
}

#[test]
fn apply_is_blocked_by_multiselect() {
    let mut app = loaded_app(vec![snap(1, "", "u"), snap(2, "", "u")]);
    app.toggle_selection();
    let act = app.handle_key(Key::Char('a'));
    assert!(matches!(act, Action::Idle));
    assert!(!app.show_apply_popup);
    assert_eq!(app.message, StatusMsg::ApplyBlockedByMultiSelect);
}

#[test]
fn status_is_blocked_by_multiselect() {
    let mut app = loaded_app(vec![snap(1, "", "u")]);
    app.toggle_selection();
    let act = app.handle_key(Key::Char('s'));
    assert!(matches!(act, Action::Idle));
    assert_eq!(app.message, StatusMsg::StatusBlockedByMultiSelect);
}

#[test]
fn status_key_submits_range_fetch() {
    let mut raw = vec![snap(7, "", "u")];
    raw[0].pre_number = Some(3);
    let mut app = loaded_app(raw);
    let act = app.handle_key(Key::Char('s'));
    match act {
        Action::Submit { task: Task::FetchStatus { start: 3, end: 7 }, .. } => (),
        other => panic!("expected a status submission, got {:?}", other),
    }
    assert!(app.loading);
    assert_eq!(app.loading_message, LoadingMsg::FetchingStatus(7));
}

#[test]
fn cursor_movement_wraps_and_fetches_status() {
    let mut app = loaded_app(vec![snap(1, "", "u"), snap(2, "", "u")]);
    assert_eq!(app.cursor, Some(0));
    let act = app.handle_key(Key::Down);
    assert_eq!(app.cursor, Some(1));
    match act {
        Action::Submit { task: Task::FetchStatus { start: 1, end: 2 }, .. } => (),
        other => panic!("expected a status submission, got {:?}", other),
    }
    assert_eq!(app.message, StatusMsg::FetchingStatus(2));
    app.handle_key(Key::Down);
    assert_eq!(app.cursor, Some(0));
    app.handle_key(Key::Up);
    assert_eq!(app.cursor, Some(1));
}

#[test]
fn cursor_movement_on_empty_view_is_a_noop() {
    let mut app = loaded_app(vec![]);
    assert_eq!(app.cursor, None);
    let act = app.handle_key(Key::Down);
    assert!(matches!(act, Action::Idle));
    assert_eq!(app.cursor, None);
}

#[test]
fn create_input_flow() {
    let mut app = loaded_app(vec![]);
    app.handle_key(Key::Char('c'));
    assert!(app.show_create_popup);
    app.handle_key(Key::Char('a'));
    app.handle_key(Key::Char('b'));
    assert_eq!(app.create_input, "ab");
    app.handle_key(Key::Backspace);
    assert_eq!(app.create_input, "a");
    let act = app.handle_key(Key::Enter);
    match act {
        Action::Submit { task: Task::Create(desc), .. } => assert_eq!(desc, "a"),
        other => panic!("expected a create submission, got {:?}", other),
    }
    assert!(!app.show_create_popup);
    assert!(app.create_input.is_empty());
    assert_eq!(app.loading_message, LoadingMsg::Creating);
}

#[test]
fn create_input_empty_enter_does_nothing() {
    let mut app = loaded_app(vec![]);
    app.handle_key(Key::Char('c'));
    let act = app.handle_key(Key::Enter);
    assert!(matches!(act, Action::Idle));
    assert!(app.show_create_popup);
}

#[test]
fn create_input_escape_clears_and_closes() {
    let mut app = loaded_app(vec![]);
    app.handle_key(Key::Char('c'));
    app.handle_key(Key::Char('x'));
    app.handle_key(Key::Esc);
    assert!(!app.show_create_popup);
    assert!(app.create_input.is_empty());
}

#[test]
fn filter_input_flow() {
    let mut app = loaded_app(vec![snap(1, "alpha", "u"), snap(2, "beta", "u")]);
    app.cursor = Some(1);
    app.handle_key(Key::Char('/'));
    assert!(app.filtering);
    app.handle_key(Key::Char('b'));
    assert_eq!(app.filter_input, "b");
    // the cursor rests on the first matching row again
    assert_eq!(app.cursor, Some(0));
    app.handle_key(Key::Enter);
    assert!(!app.filtering);
    assert_eq!(app.filter_input, "b");
    let v: Vec<u32> = app.get_filtered_snapshots().iter().map(|s| s.number).collect();
    assert_eq!(v, vec![2]);
}

#[test]
fn filter_escape_clears_text() {
    let mut app = loaded_app(vec![snap(1, "alpha", "u")]);
    app.handle_key(Key::Char('/'));
    app.handle_key(Key::Char('z'));
    assert_eq!(app.cursor, None);
    app.handle_key(Key::Esc);
    assert!(!app.filtering);
    assert!(app.filter_input.is_empty());
    assert_eq!(app.cursor, Some(0));
}

#[test]
fn delete_confirm_flow() {
    let mut app = loaded_app(vec![snap(1, "", "u"), snap(2, "", "u")]);
    app.cursor = Some(0);
    app.toggle_selection();
    app.cursor = Some(1);
    app.toggle_selection();
    app.handle_key(Key::Char('d'));
    assert!(app.show_delete_popup);
    let act = app.handle_key(Key::Enter);
    match act {
        Action::Submit { task: Task::DeleteMany(ids), .. } => assert_eq!(ids, vec![1, 2]),
        other => panic!("expected a delete submission, got {:?}", other),
    }
    assert!(!app.show_delete_popup);
    assert_eq!(app.loading_message, LoadingMsg::Deleting(2));
}

#[test]
fn delete_confirm_escape_is_a_noop() {
    let mut app = loaded_app(vec![snap(1, "", "u")]);
    app.handle_key(Key::Char('d'));
    let act = app.handle_key(Key::Esc);
    assert!(matches!(act, Action::Idle));
    assert!(!app.show_delete_popup);
    assert!(!app.loading);
}

#[test]
fn deliver_delete_outcome_chains_fetch() {
    let mut app = loaded_app(vec![snap(1, "", "u")]);
    app.pending = Some(5);
    let act = app.deliver(5, Ok(AsyncResult::Delete { success: 2, fail: 1 }));
    assert_eq!(app.message, StatusMsg::Deleted { success: 2, fail: 1 });
    assert!(app.selected_ids.is_empty());
    assert!(app.loading);
    match act {
        Action::Submit { task: Task::FetchList, .. } => (),
        other => panic!("expected a chained fetch, got {:?}", other),
    }
}

#[test]
fn deliver_create_chains_fetch() {
    let mut app = loaded_app(vec![]);
    app.pending = Some(5);
    let act = app.deliver(5, Ok(AsyncResult::Create(String::from("nightly"))));
    assert_eq!(app.message, StatusMsg::Created(String::from("nightly")));
    match act {
        Action::Submit { task: Task::FetchList, .. } => (),
        other => panic!("expected a chained fetch, got {:?}", other),
    }
}

#[test]
fn deliver_apply_does_not_refresh() {
    let mut app = loaded_app(vec![snap(7, "", "u")]);
    app.pending = Some(5);
    let act = app.deliver(5, Ok(AsyncResult::Apply(7)));
    assert!(matches!(act, Action::Idle));
    assert_eq!(app.message, StatusMsg::Applied(7));
    assert_eq!(app.snapshots.len(), 1);
}

#[test]
fn deliver_status_resets_scroll() {
    let mut app = loaded_app(vec![snap(7, "", "u")]);
    app.status_scroll = 9;
    app.pending = Some(5);
    let act = app.deliver(5, Ok(AsyncResult::Status(String::from("+ /etc/fstab"))));
    assert!(matches!(act, Action::Idle));
    assert_eq!(app.status_text, "+ /etc/fstab");
    assert_eq!(app.status_scroll, 0);
    assert_eq!(app.message, StatusMsg::StatusLoaded);
}

#[test]
fn deliver_failure_only_sets_message() {
    let mut app = loaded_app(vec![snap(7, "", "u")]);
    app.pending = Some(5);
    app.loading = true;
    let act = app.deliver(5, Err(String::from("backend exited with 1")));
    assert!(matches!(act, Action::Idle));
    assert!(!app.loading);
    assert_eq!(app.message, StatusMsg::BackendError(String::from("backend exited with 1")));
    // the previously displayed list is left intact
    assert_eq!(app.snapshots.len(), 1);
}

#[test]
fn splash_swallows_first_key() {
    let mut app = App::new();
    assert!(app.show_splash);
    let act = app.handle_key(Key::Char('q'));
    assert!(matches!(act, Action::Idle));
    assert!(!app.show_splash);
}

#[test]
fn quit_key_ends_session() {
    let mut app = loaded_app(vec![]);
    assert!(matches!(app.handle_key(Key::Char('q')), Action::Quit));
    assert!(matches!(app.handle_key(Key::Char('Q')), Action::Quit));
}

#[test]
fn refresh_key_clears_and_fetches() {
    let mut app = loaded_app(vec![snap(1, "", "u")]);
    let act = app.handle_key(Key::Char('r'));
    assert!(app.snapshots.is_empty());
    assert_eq!(app.cursor, None);
    assert!(app.loading);
    assert_eq!(app.loading_message, LoadingMsg::Refreshing);
    match act {
        Action::Submit { task: Task::FetchList, .. } => (),
        other => panic!("expected a fetch submission, got {:?}", other),
    }
}

#[test]
fn sort_keys_dispatch() {
    let mut app = loaded_app(vec![snap(2, "", "b"), snap(1, "", "a")]);
    app.handle_key(Key::Char('4'));
    assert_eq!(app.current_sort_key, SortKey::User);
    assert!(app.sort_ascending);
    app.handle_key(Key::Char('4'));
    assert!(!app.sort_ascending);
    app.handle_key(Key::Char('1'));
    assert_eq!(app.current_sort_key, SortKey::Number);
    assert!(app.sort_ascending);
}

#[test]
fn on_tick_advances_spinner_only_while_loading() {
    let mut app = loaded_app(vec![]);
    app.spinner_state = 9;
    app.loading = false;
    app.on_tick();
    assert_eq!(app.spinner_state, 9);
    app.loading = true;
    app.on_tick();
    assert_eq!(app.spinner_state, 0);
    app.on_tick();
    assert_eq!(app.spinner_state, 1);
}

#[test]
fn mouse_footer_quit_button() {
    let mut app = loaded_app(vec![]);
    let act = app.handle_mouse(Mouse::LeftClick { column: 55, row: 21 }, 80, 24);
    assert!(matches!(act, Action::Quit));
}

#[test]
fn mouse_header_click_sorts() {
    let mut app = loaded_app(vec![snap(2, "", "b"), snap(1, "", "a")]);
    // column 2 + 44 lands in the user column of the header row
    let act = app.handle_mouse(Mouse::LeftClick { column: 46, row: 8 }, 160, 24);
    assert!(matches!(act, Action::Idle));
    assert_eq!(app.current_sort_key, SortKey::User);
}

#[test]
fn mouse_row_click_targets_cursor_and_fetches_status() {
    let mut app = loaded_app(vec![snap(1, "", "u"), snap(2, "", "u")]);
    let act = app.handle_mouse(Mouse::LeftClick { column: 5, row: 10 }, 80, 24);
    assert_eq!(app.cursor, Some(1));
    match act {
        Action::Submit { task: Task::FetchStatus { start: 1, end: 2 }, .. } => (),
        other => panic!("expected a status submission, got {:?}", other),
    }
}

#[test]
fn mouse_row_click_outside_view_is_ignored() {
    let mut app = loaded_app(vec![snap(1, "", "u")]);
    let act = app.handle_mouse(Mouse::LeftClick { column: 5, row: 15 }, 80, 24);
    assert!(matches!(act, Action::Idle));
    assert_eq!(app.cursor, Some(0));
}

#[test]
fn mouse_wheel_scrolls_panes() {
    let mut app = loaded_app(vec![]);
    // rows 7.. of the right half: the details pane fills the top two
    // fifths, the status pane the rest
    let act = app.handle_mouse(Mouse::ScrollDown { column: 60, row: 8 }, 80, 24);
    assert!(matches!(act, Action::Idle));
    assert_eq!(app.details_scroll, 1);
    app.handle_mouse(Mouse::ScrollUp { column: 60, row: 8 }, 80, 24);
    app.handle_mouse(Mouse::ScrollUp { column: 60, row: 8 }, 80, 24);
    // clamped at zero
    assert_eq!(app.details_scroll, 0);
    app.handle_mouse(Mouse::ScrollDown { column: 60, row: 17 }, 80, 24);
    assert_eq!(app.status_scroll, 1);
}

#[test]
fn mouse_is_ignored_while_overlay_is_open() {
    let mut app = loaded_app(vec![]);
    app.handle_key(Key::Char('c'));
    let act = app.handle_mouse(Mouse::LeftClick { column: 55, row: 21 }, 80, 24);
    assert!(matches!(act, Action::Idle));
    assert!(app.show_create_popup);
}

#[test]
fn delivered_list_is_sorted_by_current_key() {
    let mut app = loaded_app(vec![]);
    app.pending = Some(5);
    app.deliver(
        5,
        Ok(AsyncResult::Snapshots(vec![snap(3, "", "u"), snap(1, "", "u"), snap(2, "", "u")])),
    );
    let ids: Vec<u32> = app.snapshots.iter().map(|s| s.number).collect();
    assert_eq!(ids, vec![1, 2, 3]);
}

#[test]
fn delete_outcome_with_no_attempts_keeps_message() {
    let mut app = loaded_app(vec![snap(1, "", "u")]);
    let before = app.message.clone();
    app.pending = Some(5);
    app.deliver(5, Ok(AsyncResult::Delete { success: 0, fail: 0 }));
    assert_eq!(app.message, before);
}

#[test]
fn q_inside_popup_closes_it_without_quitting() {
    let mut app = loaded_app(vec![snap(1, "", "u")]);
    app.handle_key(Key::Char('d'));
    let act = app.handle_key(Key::Char('q'));
    assert!(matches!(act, Action::Idle));
    assert!(!app.show_delete_popup);
}

#[test]
fn dismiss_splash_only_hides_splash() {
    let mut app = App::new();
    app.dismiss_splash();
    assert!(!app.show_splash);
    assert!(app.loading);
}
