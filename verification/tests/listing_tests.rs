use sfmanager::entry::Category;
use sfmanager::entry::Entry;
use sfmanager::entry::EntryKind;
use sfmanager::entry::extension;
use sfmanager::entry::get_color;
use sfmanager::entry::to_lower;
use sfmanager::listing::sort_entries;

fn file(name: &[u8]) -> Entry {
    Entry { name: name.to_vec(), kind: EntryKind::File }
}

fn dir(name: &[u8]) -> Entry {
    Entry { name: name.to_vec(), kind: EntryKind::Directory }
}

fn names(entries: &[Entry]) -> Vec<Vec<u8>> {
    entries.iter().map(|e| e.name.clone()).collect()
}

#[test]
fn scenario_directories_first_then_lexicographic() {
    let raw = vec![file(b"a.txt"), file(b"z.txt"), dir(b"docs"), dir(b"music")];
    let sorted = sort_entries(raw);
    assert_eq!(
        names(&sorted),
        vec![b"docs".to_vec(), b"music".to_vec(), b"a.txt".to_vec(), b"z.txt".to_vec()]
    );
    assert_eq!(sorted[0].kind, EntryKind::Directory);
    assert_eq!(sorted[1].kind, EntryKind::Directory);
    assert_eq!(sorted[2].kind, EntryKind::File);
    assert_eq!(sorted[3].kind, EntryKind::File);
}

#[test]
fn relisting_is_deterministic_whatever_the_raw_order() {
    let one = vec![file(b"b"), dir(b"d"), file(b"a"), dir(b"c")];
    let two = vec![dir(b"c"), file(b"a"), dir(b"d"), file(b"b")];
    let s1 = sort_entries(one);
    let s2 = sort_entries(two);
    assert_eq!(names(&s1), names(&s2));
    let s3 = sort_entries(s1.iter().cloned().collect());
    assert_eq!(names(&s2), names(&s3));
}

#[test]
fn sorting_an_empty_listing_yields_an_empty_listing() {
    let sorted = sort_entries(Vec::new());
    assert!(sorted.is_empty());
}

#[test]
fn lexicographic_order_is_bytewise_not_case_folded() {
    let raw = vec![file(b"b"), file(b"A"), file(b"a"), file(b"B")];
    let sorted = sort_entries(raw);
    assert_eq!(
        names(&sorted),
        vec![b"A".to_vec(), b"B".to_vec(), b"a".to_vec(), b"b".to_vec()]
    );
}

#[test]
fn classification_by_extension() {
    assert_eq!(get_color(&file(b"photo.jpg")), Category::Image);
    assert_eq!(get_color(&file(b"photo.webp")), Category::Image);
    assert_eq!(get_color(&file(b"song.flac")), Category::Audio);
    assert_eq!(get_color(&file(b"song.mp3")), Category::Audio);
    assert_eq!(get_color(&file(b"backup.tar")), Category::Archive);
    assert_eq!(get_color(&file(b"backup.7z")), Category::Archive);
    assert_eq!(get_color(&file(b"movie.mkv")), Category::Video);
    assert_eq!(get_color(&file(b"movie.m4v")), Category::Video);
    assert_eq!(get_color(&file(b"notes.txt")), Category::Plain);
    assert_eq!(get_color(&file(b"README")), Category::Plain);
}

#[test]
fn classification_is_case_insensitive() {
    assert_eq!(get_color(&file(b"PHOTO.JPG")), Category::Image);
    assert_eq!(get_color(&file(b"Song.FlAc")), Category::Audio);
    assert_eq!(get_color(&file(b"a.ZIP")), Category::Archive);
    assert_eq!(get_color(&file(b"a.WebM")), Category::Video);
}

#[test]
fn directories_are_classified_as_directories_whatever_their_name() {
    assert_eq!(get_color(&dir(b"pictures.jpg")), Category::Directory);
    assert_eq!(get_color(&dir(b"docs")), Category::Directory);
}

#[test]
fn extension_comes_after_the_last_dot() {
    assert_eq!(get_color(&file(b"archive.tar.gz")), Category::Archive);
    assert_eq!(extension(&b"archive.tar.gz".to_vec()), Some(b"gz".to_vec()));
    assert_eq!(extension(&b"a.txt".to_vec()), Some(b"txt".to_vec()));
    assert_eq!(extension(&b"noext".to_vec()), None);
    assert_eq!(extension(&b"trailing.".to_vec()), Some(b"".to_vec()));
}

#[test]
fn a_leading_dot_alone_makes_no_extension() {
    assert_eq!(extension(&b".bashrc".to_vec()), None);
    assert_eq!(get_color(&file(b".jpg")), Category::Plain);
    assert_eq!(get_color(&file(b".hidden.jpg")), Category::Image);
}

#[test]
fn lower_casing_touches_only_ascii_uppercase() {
    assert_eq!(to_lower(&b"MiXeD.123".to_vec()), b"mixed.123".to_vec());
    assert_eq!(to_lower(&vec![0xC3, 0x84, b'Z']), vec![0xC3, 0x84, b'z']);
}
