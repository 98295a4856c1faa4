use wadcore::archive::Archive;
use wadcore::window::Window;

fn one_record_archive() -> Archive {
    let mut bytes = Vec::new();
    bytes.extend_from_slice(&wadcore::MAGIC.to_le_bytes());
    bytes.extend_from_slice(&1u32.to_le_bytes());
    bytes.extend_from_slice(&1u32.to_le_bytes());
    bytes.extend_from_slice(&1u16.to_le_bytes());
    bytes.push(b'f');
    bytes.extend_from_slice(&28u32.to_le_bytes());
    bytes.extend_from_slice(&2u32.to_le_bytes());
    bytes.extend_from_slice(&2u32.to_le_bytes());
    bytes.push(0);
    bytes.extend_from_slice(b"ok");
    Archive::from_bytes(bytes).unwrap()
}

#[test]
fn fresh_window_is_empty() {
    let w = Window::new();
    assert_eq!(w.file_search, "");
    assert_eq!(w.wad_path, "");
    assert_eq!(w.selected_record, "");
    assert!(w.selected_record_buffer.is_empty());
    assert!(!w.invalid_file_found);
    assert_eq!(w.wad.record_count(), 0);
}

#[test]
fn default_matches_new() {
    let d = Window::default();
    let n = Window::new();
    assert_eq!(d.file_search, n.file_search);
    assert_eq!(d.wad_path, n.wad_path);
    assert_eq!(d.selected_record, n.selected_record);
    assert_eq!(d.invalid_file_found, n.invalid_file_found);
    assert_eq!(d.wad.record_count(), n.wad.record_count());
}

#[test]
fn set_archive_resets_search_and_selection() {
    let mut w = Window::new();
    w.wad_path = String::from("/tmp/assets.wad");
    w.file_search = String::from("query");
    w.selected_record = String::from("old");
    w.selected_record_buffer = vec![1, 2, 3];
    w.invalid_file_found = true;
    w.set_archive(one_record_archive());
    assert_eq!(w.wad.record_count(), 1);
    assert!(!w.invalid_file_found);
    assert_eq!(w.file_search, "");
    assert_eq!(w.selected_record, "");
    assert!(w.selected_record_buffer.is_empty());
    assert_eq!(w.wad_path, "/tmp/assets.wad");
}

#[test]
fn mark_invalid_file_only_sets_the_flag() {
    let mut w = Window::new();
    w.wad_path = String::from("somewhere");
    w.mark_invalid_file();
    assert!(w.invalid_file_found);
    assert_eq!(w.wad_path, "somewhere");
    assert_eq!(w.wad.record_count(), 0);
}

#[test]
fn select_record_clears_the_buffer() {
    let mut w = Window::new();
    w.selected_record_buffer = vec![9, 9];
    w.select_record(String::from("a/b.txt"));
    assert_eq!(w.selected_record, "a/b.txt");
    assert!(w.selected_record_buffer.is_empty());
}
