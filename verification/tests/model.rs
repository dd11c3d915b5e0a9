use snaptui::{
    delete_outcome_counts, format_size, tag_with_configs, App, AsyncResult, Snapshot, SortKey,
};

fn snap(number: u32, desc: &str, user: &str) -> Snapshot {
    Snapshot {
        config: String::from("root"),
        subvolume: String::from("/"),
        number,
        snapshot_type: String::from("single"),
        pre_number: None,
        post_number: None,
        date: String::from("2024-01-01"),
        user: String::from(user),
        cleanup: None,
        description: String::from(desc),
        userdata: None,
        used_space: None,
        default: false,
        active: false,
    }
}

fn ticket_of(a: &snaptui::Action) -> u64 {
    match a {
        snaptui::Action::Submit { ticket, .. } => *ticket,
        _ => panic!("expected a submission"),
    }
}

fn loaded_app(snaps: Vec<Snapshot>) -> App {
    let mut app = App::new();
    app.show_splash = false;
    let act = app.refresh_snapshots();
    let t = ticket_of(&act);
    let follow = app.deliver(t, Ok(AsyncResult::Snapshots(snaps)));
    assert!(matches!(follow, snaptui::Action::Idle));
    app
}

fn ids(app: &App) -> Vec<u32> {
    app.snapshots.iter().map(|s| s.number).collect()
}

#[test]
fn sorting_is_stable_in_both_directions() {
    let mut raw = vec![snap(1, "", "b"), snap(2, "", "a"), snap(3, "", "a")];
    raw[0].used_space = Some(9);
    let mut app = loaded_app(raw);
    assert_eq!(ids(&app), vec![1, 2, 3]);

    app.set_sort_key(SortKey::User);
    assert!(app.sort_ascending);
    // the two records tied on "a" keep their previous relative order
    assert_eq!(ids(&app), vec![2, 3, 1]);

    app.set_sort_key(SortKey::User);
    assert!(!app.sort_ascending);
    // descending is stable too: the tied group is not reversed
    assert_eq!(ids(&app), vec![1, 2, 3]);
}

#[test]
fn set_sort_twice_restores_order() {
    let mut raw = vec![snap(4, "", "u"), snap(1, "", "u"), snap(3, "", "u")];
    raw[0].used_space = Some(5);
    raw[1].used_space = Some(5);
    raw[2].used_space = None;
    let mut app = loaded_app(raw);
    app.set_sort_key(SortKey::UsedSpace);
    let before: Vec<u32> = ids(&app);
    app.set_sort_key(SortKey::UsedSpace);
    app.set_sort_key(SortKey::UsedSpace);
    assert_eq!(ids(&app), before);
}

#[test]
fn sort_treats_missing_space_as_zero() {
    let mut raw = vec![snap(1, "", "u"), snap(2, "", "u"), snap(3, "", "u")];
    raw[0].used_space = Some(7);
    raw[1].used_space = None;
    raw[2].used_space = Some(1);
    let mut app = loaded_app(raw);
    app.set_sort_key(SortKey::UsedSpace);
    assert_eq!(ids(&app), vec![2, 3, 1]);
}

#[test]
fn filtering_is_pure_and_empty_filter_keeps_all() {
    let app = {
        let mut a = loaded_app(vec![snap(2, "beta", "u"), snap(1, "alpha", "u")]);
        a.filter_input = String::from("alp");
        a
    };
    let once: Vec<u32> = app.get_filtered_snapshots().iter().map(|s| s.number).collect();
    let twice: Vec<u32> = app.get_filtered_snapshots().iter().map(|s| s.number).collect();
    assert_eq!(once, twice);
    assert_eq!(once, vec![1]);

    let full = loaded_app(vec![snap(2, "beta", "u"), snap(1, "alpha", "u")]);
    let view: Vec<u32> = full.get_filtered_snapshots().iter().map(|s| s.number).collect();
    // empty filter: the whole raw list in current (ascending id) sort order
    assert_eq!(view, vec![1, 2]);
}

#[test]
fn filter_matches_description_number_and_user() {
    let mut app = loaded_app(vec![
        snap(1, "timeline", "u"),
        snap(2, "manual,import", "u"),
        snap(3, "", "root"),
    ]);

    app.filter_input = String::from("man");
    let v: Vec<u32> = app.get_filtered_snapshots().iter().map(|s| s.number).collect();
    assert_eq!(v, vec![2]);

    app.filter_input = String::from("2");
    let v: Vec<u32> = app.get_filtered_snapshots().iter().map(|s| s.number).collect();
    assert_eq!(v, vec![2]);

    app.filter_input = String::from("root");
    let v: Vec<u32> = app.get_filtered_snapshots().iter().map(|s| s.number).collect();
    assert_eq!(v, vec![3]);
}

#[test]
fn filter_is_case_insensitive_on_text_fields() {
    let mut app = loaded_app(vec![snap(1, "TimeLine", "u"), snap(2, "manual", "u")]);
    // the filter text is folded before matching
    app.filter_input = String::from("MAN");
    let v: Vec<u32> = app.get_filtered_snapshots().iter().map(|s| s.number).collect();
    assert_eq!(v, vec![2]);
    // the record's text is folded before matching
    app.filter_input = String::from("timeli");
    let v: Vec<u32> = app.get_filtered_snapshots().iter().map(|s| s.number).collect();
    assert_eq!(v, vec![1]);
}

#[test]
fn numeric_filter_is_case_sensitive_and_verbatim() {
    let mut app = loaded_app(vec![snap(12, "", "u"), snap(21, "", "u"), snap(2, "", "u")]);
    app.filter_input = String::from("1");
    let v: Vec<u32> = app.get_filtered_snapshots().iter().map(|s| s.number).collect();
    assert_eq!(v, vec![12, 21]);
}

#[test]
fn format_size_exact_values() {
    assert_eq!(format_size(0), "0B");
    assert_eq!(format_size(500), "500B");
    assert_eq!(format_size(1023), "1023B");
    assert_eq!(format_size(1024), "1.0K");
    assert_eq!(format_size(1126), "1.1K");
    assert_eq!(format_size(1536), "1.5K");
    assert_eq!(format_size(1048576), "1.0M");
    assert_eq!(format_size(5767168), "5.5M");
    assert_eq!(format_size(1073741824), "1.0G");
    assert_eq!(format_size(10737418240), "10.0G");
}

#[test]
fn sort_indicator_marks_active_key_and_direction() {
    let mut app = loaded_app(vec![snap(1, "", "u")]);
    assert_eq!(app.get_sort_indicator(SortKey::Number), " ^");
    assert_eq!(app.get_sort_indicator(SortKey::User), "");
    app.set_sort_key(SortKey::Number);
    assert_eq!(app.get_sort_indicator(SortKey::Number), " v");
}

#[test]
fn status_range_uses_pre_number_or_falls_back() {
    let mut s = snap(7, "", "u");
    assert_eq!(s.status_range(), (6, 7));
    s.pre_number = Some(3);
    assert_eq!(s.status_range(), (3, 7));
    let z = snap(0, "", "u");
    assert_eq!(z.status_range(), (0, 0));
}

#[test]
fn tag_with_configs_flattens_and_tags() {
    let groups = vec![
        (String::from("root"), vec![snap(1, "a", "u"), snap(2, "b", "u")]),
        (String::from("home"), vec![snap(9, "c", "u")]),
    ];
    let flat = tag_with_configs(groups);
    assert_eq!(flat.len(), 3);
    assert_eq!(flat[0].number, 1);
    assert_eq!(flat[0].config, "root");
    assert_eq!(flat[1].number, 2);
    assert_eq!(flat[1].config, "root");
    assert_eq!(flat[2].number, 9);
    assert_eq!(flat[2].config, "home");
    assert_eq!(flat[2].description, "c");
}

#[test]
fn delete_outcome_counts_tallies() {
    assert_eq!(delete_outcome_counts(&vec![true, false, true]), (2, 1));
    assert_eq!(delete_outcome_counts(&vec![]), (0, 0));
    assert_eq!(delete_outcome_counts(&vec![false]), (0, 1));
}
