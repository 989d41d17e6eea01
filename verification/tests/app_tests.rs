use sfmanager::app::ActivePanel;
use sfmanager::app::App;
use sfmanager::entry::Entry;
use sfmanager::entry::EntryKind;
use sfmanager::fspath::AbsPath;
use sfmanager::ops::OpKind;
use sfmanager::ops::OpOutcome;

fn file(name: &[u8]) -> Entry {
    Entry { name: name.to_vec(), kind: EntryKind::File }
}

fn dir(name: &[u8]) -> Entry {
    Entry { name: name.to_vec(), kind: EntryKind::Directory }
}

fn path(components: &[&[u8]]) -> AbsPath {
    AbsPath { components: components.iter().map(|c| c.to_vec()).collect() }
}

fn home_listing() -> Vec<Entry> {
    vec![file(b"a.txt"), file(b"z.txt"), dir(b"docs"), dir(b"music")]
}

fn fresh_app() -> App {
    App::new(path(&[b"home", b"u"]), home_listing())
}

#[test]
fn a_fresh_app_shows_the_same_sorted_listing_on_both_sides() {
    let app = fresh_app();
    assert_eq!(app.cur_panel, ActivePanel::Left);
    assert!(app.popup.is_none());
    assert!(app.search_str.is_empty());
    assert_eq!(app.operations.count(), 0);
    assert_eq!(app.left_panel.entries[0].name, b"docs".to_vec());
    assert_eq!(app.right_panel.entries[0].name, b"docs".to_vec());
    assert_eq!(app.left_panel.selected, Some(0));
    assert_eq!(app.right_panel.selected, Some(0));
}

#[test]
fn commands_go_to_the_active_panel_only() {
    let mut app = fresh_app();
    app.next();
    assert_eq!(app.left_panel.selected, Some(1));
    assert_eq!(app.right_panel.selected, Some(0));
    app.switch_active_panel();
    app.end();
    assert_eq!(app.left_panel.selected, Some(1));
    assert_eq!(app.right_panel.selected, Some(3));
}

#[test]
fn entering_and_leaving_a_directory_goes_through_the_targets() {
    let mut app = fresh_app();
    let target = app.descend_target().expect("docs is selected and is a directory");
    assert_eq!(
        target.components,
        vec![b"home".to_vec(), b"u".to_vec(), b"docs".to_vec()]
    );
    app.open_dir(vec![file(b"inside.txt")]);
    assert_eq!(
        app.left_panel.path.components,
        vec![b"home".to_vec(), b"u".to_vec(), b"docs".to_vec()]
    );
    let up = app.ascend_target().expect("docs has a parent");
    assert_eq!(up.components, vec![b"home".to_vec(), b"u".to_vec()]);
    app.leave_dir(home_listing());
    assert_eq!(app.left_panel.path.components, vec![b"home".to_vec(), b"u".to_vec()]);
    assert_eq!(app.left_panel.selected, Some(0));
}

#[test]
fn a_file_selection_offers_no_descend_target() {
    let mut app = fresh_app();
    app.end();
    assert!(app.descend_target().is_none());
}

#[test]
fn search_accumulates_and_rescans_from_the_top() {
    let mut app = fresh_app();
    app.jump_to_first_matching(b'm');
    assert_eq!(app.search_str, b"m".to_vec());
    assert_eq!(app.left_panel.selected, Some(1));
    app.jump_to_first_matching(b'u');
    assert_eq!(app.search_str, b"mu".to_vec());
    assert_eq!(app.left_panel.selected, Some(1));
    app.end();
    app.jump_to_first_matching(b's');
    // "mus" still matches "music" first, scanning from the top again.
    assert_eq!(app.left_panel.selected, Some(1));
}

#[test]
fn a_search_without_match_keeps_the_selection_and_the_buffer() {
    let mut app = fresh_app();
    app.jump_to_first_matching(b'q');
    assert_eq!(app.search_str, b"q".to_vec());
    assert_eq!(app.left_panel.selected, Some(0));
}

#[test]
fn navigation_clears_the_search() {
    let mut app = fresh_app();
    app.jump_to_first_matching(b'd');
    assert!(!app.search_str.is_empty());
    app.switch_active_panel();
    assert!(app.search_str.is_empty());
    app.jump_to_first_matching(b'd');
    app.open_dir(vec![file(b"inside.txt")]);
    assert!(app.search_str.is_empty());
    app.jump_to_first_matching(b'i');
    app.leave_dir(home_listing());
    assert!(app.search_str.is_empty());
}

#[test]
fn the_search_buffer_shrinks_by_one_character() {
    let mut app = fresh_app();
    app.jump_to_first_matching(b'd');
    app.jump_to_first_matching(b'o');
    app.pop_char_from_search_str();
    assert_eq!(app.search_str, b"d".to_vec());
    app.clear_search_str();
    assert!(app.search_str.is_empty());
    app.pop_char_from_search_str();
    assert!(app.search_str.is_empty());
}

#[test]
fn the_help_popup_blocks_navigation_and_search_until_dismissed() {
    let mut app = fresh_app();
    app.open_help_popup();
    assert!(app.is_popup());
    let popup = app.popup.as_ref().expect("help popup is open");
    assert_eq!(popup.title, "Help");
    assert!(popup.text.contains("F2 - Copy"));
    assert!(!popup.emphasis);
    app.next();
    app.end();
    app.jump_to_first_matching(b'a');
    app.switch_active_panel();
    assert_eq!(app.left_panel.selected, Some(0));
    assert_eq!(app.cur_panel, ActivePanel::Left);
    assert!(app.search_str.is_empty());
    assert!(app.descend_target().is_none());
    assert!(app.ascend_target().is_none());
    app.close_popup();
    assert!(!app.is_popup());
    app.next();
    assert_eq!(app.left_panel.selected, Some(1));
}

#[test]
fn a_copy_goes_from_the_selection_to_the_other_panels_directory() {
    let mut app = fresh_app();
    app.switch_active_panel();
    app.open_dir(vec![file(b"inside.txt")]);
    app.switch_active_panel();
    app.end();
    let pending = app.copy_objects().expect("a selection exists");
    assert_eq!(pending.op.kind, OpKind::Copy);
    assert_eq!(
        pending.op.source.components,
        vec![b"home".to_vec(), b"u".to_vec(), b"z.txt".to_vec()]
    );
    assert_eq!(
        pending.op.destination.components,
        vec![b"home".to_vec(), b"u".to_vec(), b"docs".to_vec(), b"z.txt".to_vec()]
    );
    assert_eq!(app.operations.count(), 1);
}

#[test]
fn a_move_is_submitted_with_its_own_kind() {
    let mut app = fresh_app();
    let pending = app.move_objects().expect("a selection exists");
    assert_eq!(pending.op.kind, OpKind::Move);
    assert_eq!(
        pending.op.source.components,
        vec![b"home".to_vec(), b"u".to_vec(), b"docs".to_vec()]
    );
    assert_eq!(app.operations.count(), 1);
}

#[test]
fn copying_with_nothing_selected_is_a_safe_no_op() {
    let mut app = App::new(path(&[b"home"]), Vec::new());
    assert!(app.copy_objects().is_none());
    assert!(app.move_objects().is_none());
    assert!(app.delete_target().is_none());
    assert_eq!(app.operations.count(), 0);
}

#[test]
fn scenario_a_finished_copy_is_polled_once_and_the_panels_refresh() {
    let mut app = fresh_app();
    let pending = app.copy_objects().expect("a selection exists");
    assert_eq!(app.operations.count(), 1);
    let mut with_copy = home_listing();
    with_copy.push(file(b"docs-copy.txt"));
    app.thread_ctrl(
        vec![(pending.handle, OpOutcome::Succeeded)],
        with_copy.clone(),
        with_copy,
    );
    assert_eq!(app.operations.count(), 0);
    assert!(app.popup.is_none());
    assert_eq!(app.left_panel.entries.len(), 5);
    assert_eq!(app.right_panel.entries.len(), 5);
}

#[test]
fn scenario_a_failed_operation_opens_one_popup_and_panels_stay_put() {
    let mut app = fresh_app();
    app.next();
    let pending = app.copy_objects().expect("a selection exists");
    let before_entries: Vec<Vec<u8>> =
        app.left_panel.entries.iter().map(|e| e.name.clone()).collect();
    app.thread_ctrl(
        vec![(pending.handle, OpOutcome::Failed("read-only filesystem".to_string()))],
        home_listing(),
        home_listing(),
    );
    assert_eq!(app.operations.count(), 0);
    let popup = app.popup.as_ref().expect("the failure opened a popup");
    assert_eq!(popup.title, "Error");
    assert!(!popup.text.is_empty());
    assert_eq!(popup.text, "read-only filesystem");
    assert!(popup.emphasis);
    let after_entries: Vec<Vec<u8>> =
        app.left_panel.entries.iter().map(|e| e.name.clone()).collect();
    assert_eq!(before_entries, after_entries);
    assert_eq!(app.left_panel.selected, Some(1));
    assert_eq!(app.right_panel.selected, Some(0));
}

#[test]
fn only_the_first_failure_of_a_batch_is_shown() {
    let mut app = fresh_app();
    let first = app.copy_objects().expect("a selection exists");
    app.next();
    let second = app.copy_objects().expect("a selection exists");
    app.thread_ctrl(
        vec![
            (first.handle, OpOutcome::Failed("first reason".to_string())),
            (second.handle, OpOutcome::Failed("second reason".to_string())),
        ],
        home_listing(),
        home_listing(),
    );
    let popup = app.popup.as_ref().expect("a popup is open");
    assert_eq!(popup.text, "first reason");
    assert_eq!(app.operations.count(), 0);
}

#[test]
fn polling_with_no_results_only_refreshes() {
    let mut app = fresh_app();
    app.thread_ctrl(Vec::new(), home_listing(), home_listing());
    assert!(app.popup.is_none());
    assert_eq!(app.left_panel.selected, Some(0));
}

#[test]
fn refreshing_relists_both_panels() {
    let mut app = fresh_app();
    app.refresh(vec![file(b"left.txt")], Vec::new());
    assert_eq!(app.left_panel.entries.len(), 1);
    assert_eq!(app.left_panel.selected, Some(0));
    assert!(app.right_panel.entries.is_empty());
    assert_eq!(app.right_panel.selected, None);
}

#[test]
fn the_delete_target_is_the_current_selection() {
    let mut app = fresh_app();
    app.end();
    let target = app.delete_target().expect("a selection exists");
    assert_eq!(
        target.components,
        vec![b"home".to_vec(), b"u".to_vec(), b"z.txt".to_vec()]
    );
}

#[test]
fn a_failed_delete_opens_a_popup_and_the_panel_refreshes() {
    let mut app = fresh_app();
    app.delete_objects(
        OpOutcome::Failed("Failed to delete /home/u/docs [Error: denied]".to_string()),
        home_listing(),
    );
    let popup = app.popup.as_ref().expect("the failure opened a popup");
    assert_eq!(popup.title, "Error");
    assert!(popup.text.contains("denied"));
    app.close_popup();
    app.delete_objects(OpOutcome::Succeeded, vec![file(b"a.txt")]);
    assert!(app.popup.is_none());
    assert_eq!(app.left_panel.entries.len(), 1);
}
