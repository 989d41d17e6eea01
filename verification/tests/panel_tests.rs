use sfmanager::entry::Entry;
use sfmanager::entry::EntryKind;
use sfmanager::fspath::AbsPath;
use sfmanager::panel::Panel;

fn file(name: &[u8]) -> Entry {
    Entry { name: name.to_vec(), kind: EntryKind::File }
}

fn dir(name: &[u8]) -> Entry {
    Entry { name: name.to_vec(), kind: EntryKind::Directory }
}

fn path(components: &[&[u8]]) -> AbsPath {
    AbsPath { components: components.iter().map(|c| c.to_vec()).collect() }
}

fn home_listing() -> Vec<Entry> {
    vec![file(b"a.txt"), file(b"z.txt"), dir(b"docs"), dir(b"music")]
}

fn invariant_holds(p: &Panel) {
    match p.selected {
        None => assert!(p.entries.is_empty()),
        Some(i) => assert!(i < p.entries.len()),
    }
}

#[test]
fn a_fresh_panel_selects_the_first_entry() {
    let p = Panel::new(path(&[b"home", b"u"]), home_listing());
    assert_eq!(p.selected, Some(0));
    assert_eq!(p.entries[0].name, b"docs".to_vec());
    invariant_holds(&p);
}

#[test]
fn a_fresh_panel_on_an_empty_directory_selects_nothing() {
    let p = Panel::new(path(&[b"home"]), Vec::new());
    assert_eq!(p.selected, None);
    invariant_holds(&p);
}

#[test]
fn moving_clamps_at_both_ends() {
    let mut p = Panel::new(path(&[b"home"]), home_listing());
    p.previous();
    assert_eq!(p.selected, Some(0));
    p.next();
    assert_eq!(p.selected, Some(1));
    p.end();
    assert_eq!(p.selected, Some(3));
    p.next();
    assert_eq!(p.selected, Some(3));
    p.begin();
    assert_eq!(p.selected, Some(0));
    invariant_holds(&p);
}

#[test]
fn moving_on_an_empty_listing_is_a_no_op() {
    let mut p = Panel::new(path(&[b"home"]), Vec::new());
    p.next();
    p.previous();
    p.begin();
    p.end();
    assert_eq!(p.selected, None);
    invariant_holds(&p);
}

#[test]
fn scenario_descend_then_ascend_restores_the_selection() {
    let mut p = Panel::new(path(&[b"home", b"u"]), home_listing());
    assert_eq!(p.selected, Some(0));
    assert_eq!(p.descend_target(), Some(&b"docs".to_vec()));
    p.open_dir(vec![file(b"one"), file(b"two"), file(b"three"), file(b"four")]);
    assert_eq!(p.path.components, vec![b"home".to_vec(), b"u".to_vec(), b"docs".to_vec()]);
    assert_eq!(p.selected, Some(0));
    p.next();
    p.next();
    assert_eq!(p.selected, Some(2));
    p.leave_dir(home_listing());
    assert_eq!(p.path.components, vec![b"home".to_vec(), b"u".to_vec()]);
    assert_eq!(p.selected, Some(0));
    invariant_holds(&p);
}

#[test]
fn descend_restores_a_deeper_selection_too() {
    let mut p = Panel::new(path(&[b"home"]), home_listing());
    p.next();
    assert_eq!(p.selected, Some(1));
    assert_eq!(p.descend_target(), Some(&b"music".to_vec()));
    p.open_dir(vec![file(b"x.mp3")]);
    assert_eq!(p.selected, Some(0));
    p.leave_dir(home_listing());
    assert_eq!(p.selected, Some(1));
}

#[test]
fn a_file_is_no_descend_target() {
    let mut p = Panel::new(path(&[b"home"]), home_listing());
    p.end();
    assert_eq!(p.descend_target(), None);
}

#[test]
fn ascending_without_history_restarts_at_the_top() {
    let mut p = Panel::new(path(&[b"home", b"u"]), home_listing());
    p.end();
    assert_eq!(p.selected, Some(3));
    p.leave_dir(vec![dir(b"u"), dir(b"v")]);
    assert_eq!(p.path.components, vec![b"home".to_vec()]);
    assert_eq!(p.selected, Some(0));
}

#[test]
fn a_restored_selection_is_clamped_to_the_new_listing() {
    let mut p = Panel::new(path(&[b"home"]), home_listing());
    p.next();
    assert_eq!(p.selected, Some(1));
    p.open_dir(vec![file(b"x.mp3")]);
    // The outer directory shrank while we were inside it.
    p.leave_dir(vec![file(b"only")]);
    assert_eq!(p.selected, Some(0));
    invariant_holds(&p);
}

#[test]
fn search_selects_the_first_match_in_listing_order() {
    let mut p = Panel::new(path(&[b"home"]), home_listing());
    p.end();
    p.jump_to_first_matching(&b"txt".to_vec());
    assert_eq!(p.selected, Some(2));
    p.jump_to_first_matching(&b"z.t".to_vec());
    assert_eq!(p.selected, Some(3));
    p.jump_to_first_matching(&b"mus".to_vec());
    assert_eq!(p.selected, Some(1));
}

#[test]
fn search_without_a_match_leaves_the_selection_unchanged() {
    let mut p = Panel::new(path(&[b"home"]), home_listing());
    p.next();
    p.jump_to_first_matching(&b"nothing-like-this".to_vec());
    assert_eq!(p.selected, Some(1));
}

#[test]
fn search_is_case_sensitive() {
    let mut p = Panel::new(path(&[b"home"]), home_listing());
    p.jump_to_first_matching(&b"DOCS".to_vec());
    assert_eq!(p.selected, Some(0));
}

#[test]
fn refresh_keeps_the_selection_index_and_clamps_it() {
    let mut p = Panel::new(path(&[b"home"]), home_listing());
    p.end();
    assert_eq!(p.selected, Some(3));
    p.update_items(vec![file(b"only")]);
    assert_eq!(p.selected, Some(0));
    assert_eq!(p.entries.len(), 1);
    p.update_items(Vec::new());
    assert_eq!(p.selected, None);
    p.update_items(home_listing());
    assert_eq!(p.selected, Some(0));
    invariant_holds(&p);
}

#[test]
fn the_current_object_is_the_selected_entry_under_the_panel_path() {
    let mut p = Panel::new(path(&[b"home", b"u"]), home_listing());
    p.end();
    let obj = p.get_cur_obj();
    assert_eq!(obj.components, vec![b"home".to_vec(), b"u".to_vec(), b"z.txt".to_vec()]);
    let empty = Panel::new(path(&[b"home"]), Vec::new());
    assert!(empty.get_cur_obj().components.is_empty());
}

#[test]
fn an_empty_search_string_matches_the_first_entry() {
    let mut p = Panel::new(path(&[b"home"]), home_listing());
    p.end();
    p.jump_to_first_matching(&Vec::new());
    assert_eq!(p.selected, Some(0));
}

#[test]
fn descending_into_an_empty_directory_selects_nothing_and_ascending_recovers() {
    let mut p = Panel::new(path(&[b"home"]), home_listing());
    p.open_dir(Vec::new());
    assert_eq!(p.selected, None);
    invariant_holds(&p);
    p.leave_dir(home_listing());
    assert_eq!(p.selected, Some(0));
    invariant_holds(&p);
}

#[test]
fn two_descents_restore_their_selections_in_turn() {
    let mut p = Panel::new(path(&[b"home"]), home_listing());
    p.next();
    p.open_dir(vec![dir(b"inner"), file(b"m.txt")]);
    p.open_dir(vec![file(b"deep.txt")]);
    assert_eq!(
        p.path.components,
        vec![b"home".to_vec(), b"music".to_vec(), b"inner".to_vec()]
    );
    p.leave_dir(vec![dir(b"inner"), file(b"m.txt")]);
    assert_eq!(p.selected, Some(0));
    p.leave_dir(home_listing());
    assert_eq!(p.selected, Some(1));
}

#[test]
fn get_path_returns_the_current_directory() {
    let p = Panel::new(path(&[b"home", b"u"]), home_listing());
    assert_eq!(p.get_path().components, vec![b"home".to_vec(), b"u".to_vec()]);
}
