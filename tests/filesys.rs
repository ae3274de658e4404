use mag::filesys::{DirChild, Fetched, ItemMeta, MagEntry, MagFile, MagFolder, MagItem};
use mag::preview::FILE_READ_BYTES;

fn file_meta() -> Option<ItemMeta> {
    Some(ItemMeta { is_file: true, is_dir: false, len: 3 })
}

fn dir_meta() -> Option<ItemMeta> {
    Some(ItemMeta { is_file: false, is_dir: true, len: 4096 })
}

fn child(path: &str, metadata: Option<ItemMeta>) -> DirChild {
    DirChild { path: path.to_string(), metadata }
}

fn folder(path: &str) -> MagFolder {
    MagFolder::new(MagItem::from(path.to_string(), dir_meta()))
}

fn paths(items: &[MagEntry]) -> Vec<String> {
    items.iter().map(|e| e.get_path().clone()).collect()
}

#[test]
fn file() {
    let mut f = MagFile::new(MagItem::from("/home/mikel/Escritorio/ruby/rb/rb/main.rb".to_string(), None));
    f.file_contents(Err("No such file or directory (os error 2)".to_string()));
    println!("{}", f.content);
    assert_eq!(f.content, "can't open file No such file or directory (os error 2)");
}

#[test]
fn listing_puts_directories_first_then_bytes() {
    let mut d = folder("/t");
    d.get_entries(Some(vec![
        child("/t/b.txt", file_meta()),
        child("/t/a_dir", dir_meta()),
        child("/t/B.txt", file_meta()),
        child("/t/z_dir", dir_meta()),
        child("/t/a.txt", file_meta()),
    ]));
    assert_eq!(paths(&d.items), vec!["/t/a_dir", "/t/z_dir", "/t/B.txt", "/t/a.txt", "/t/b.txt"]);
    assert!(d.items[0].is_folder());
    assert!(d.items[1].is_folder());
    assert!(d.items[2].is_file());
}

#[test]
fn listing_orders_a_prefix_first() {
    let mut d = folder("/t");
    d.get_entries(Some(vec![child("/t/ab", file_meta()), child("/t/a", file_meta()), child("/t/a-b", file_meta())]));
    assert_eq!(paths(&d.items), vec!["/t/a", "/t/a-b", "/t/ab"]);
}

#[test]
fn sorting_twice_changes_nothing() {
    let mut d = folder("/t");
    d.get_entries(Some(vec![
        child("/t/c", file_meta()),
        child("/t/b", dir_meta()),
        child("/t/a", file_meta()),
        child("/t/d", dir_meta()),
    ]));
    let once = paths(&d.items);
    d.sort_entries();
    assert_eq!(paths(&d.items), once);
    assert_eq!(once, vec!["/t/b", "/t/d", "/t/a", "/t/c"]);
}

#[test]
fn listing_drops_children_without_metadata() {
    let mut d = folder("/t");
    d.get_entries(Some(vec![
        child("/t/ok.txt", file_meta()),
        child("/t/broken_link", None),
        child("/t/sub", dir_meta()),
    ]));
    assert_eq!(d.items.len(), 2);
    assert_eq!(paths(&d.items), vec!["/t/sub", "/t/ok.txt"]);
}

#[test]
fn failed_read_lists_nothing() {
    let mut d = folder("/t");
    d.get_entries(Some(vec![child("/t/x", file_meta())]));
    assert_eq!(d.items.len(), 1);
    d.get_entries(None);
    assert!(d.items.is_empty());
    assert_eq!(d.data.path, "/t");
}

#[test]
fn get_entries_return_hands_back_a_copy() {
    let mut d = folder("/t");
    let r = d.get_entries_return(Some(vec![child("/t/y", file_meta()), child("/t/x", file_meta())]));
    let copy = r.unwrap();
    assert_eq!(paths(&copy.items), vec!["/t/x", "/t/y"]);
    assert_eq!(copy.data.path, "/t");
    assert!(d.get_entries_return(None).is_none());
    assert!(d.items.is_empty());
}

#[test]
fn return_entries_sorts_the_listing() {
    let d = folder("/d");
    let v = d.return_entries(Some(vec![child("/d/b.txt", file_meta()), child("/d/gone", None), child("/d/a_dir", dir_meta())]));
    let v = v.unwrap();
    assert_eq!(paths(&v), vec!["/d/a_dir", "/d/b.txt"]);
    assert!(v[0].is_folder());
    assert!(v[1].is_file());
    assert!(d.items.is_empty());
    assert!(d.return_entries(None).is_none());
}

#[test]
fn preview_trims_nul_padding() {
    let f = MagFile::new_return(MagItem::from("/t/a".to_string(), file_meta()), Ok(b"hi\n\0\0\0".to_vec()));
    assert_eq!(f.content, "hi\n");
}

#[test]
fn preview_keeps_at_most_the_read_size() {
    let bytes = vec![b'x'; 300];
    let f = MagFile::new_return(MagItem::from("/t/a".to_string(), file_meta()), Ok(bytes));
    assert_eq!(FILE_READ_BYTES, 250);
    assert_eq!(f.content, "x".repeat(250));
}

#[test]
fn preview_replaces_invalid_utf8() {
    let f = MagFile::new_return(MagItem::from("/t/a".to_string(), file_meta()), Ok(vec![b'a', 0xff, b'b']));
    assert_eq!(f.content, "a\u{FFFD}b");
}

#[test]
fn preview_of_an_empty_file_is_empty() {
    let f = MagFile::new_return(MagItem::from("/t/a".to_string(), file_meta()), Ok(Vec::new()));
    assert_eq!(f.content, "");
}

#[test]
fn preview_of_an_unreadable_file_shows_the_error() {
    let mut f = MagFile::new(MagItem::from("/t/a".to_string(), file_meta()));
    f.file_contents(Err("Permission denied (os error 13)".to_string()));
    assert_eq!(f.content, "can't open file Permission denied (os error 13)");
}

#[test]
fn file_contents_return_on_failure_changes_nothing() {
    let mut f = MagFile::new_return(MagItem::from("/t/a".to_string(), file_meta()), Ok(b"old".to_vec()));
    assert!(f.file_contents_return(Err("gone".to_string())).is_none());
    assert_eq!(f.content, "old");
    let copy = f.file_contents_return(Ok(b"new\0".to_vec())).unwrap();
    assert_eq!(f.content, "new");
    assert_eq!(copy.content, "new");
    assert_eq!(copy.data.path, "/t/a");
}

#[test]
fn file_name_is_the_last_component() {
    assert_eq!(MagItem::from("/home/u/notes.txt".to_string(), None).file_name(), "notes.txt");
    assert_eq!(MagItem::from("/home/u/dir/".to_string(), None).file_name(), "dir");
    assert_eq!(MagItem::from("/".to_string(), None).file_name(), "CORRUPTED FILE NAME");
    assert_eq!(MagItem::from("/a/..".to_string(), None).file_name(), "CORRUPTED FILE NAME");
}

#[test]
fn entry_accessors() {
    let mut d = folder("/t");
    d.get_entries(Some(vec![child("/t/f", file_meta()), child("/t/s", dir_meta())]));
    let e = MagEntry::Dir(d);
    assert_eq!(e.variant_order(), 0);
    assert_eq!(e.path(), "/t");
    assert!(!e.is_folder_empty());
    assert_eq!(e.get_folder_path(0), Some("/t/s".to_string()));
    assert_eq!(e.get_folder_path(1), Some("/t/f".to_string()));
    assert!(e.get_file().is_none());
    let copy = e.get_folder().unwrap();
    assert_eq!(paths(&copy.items), vec!["/t/s", "/t/f"]);
    let f = MagEntry::File(MagFile::new(MagItem::from("/t/f".to_string(), file_meta())));
    assert_eq!(f.variant_order(), 1);
    assert!(f.get_folder().is_none());
    assert!(!f.is_folder_empty());
    assert_eq!(f.get_folder_path(3), None);
    assert_eq!(f.get_file().unwrap().data.path, "/t/f");
    assert!(MagEntry::Dir(folder("/e")).is_folder_empty());
}

#[test]
fn from_fetch_builds_the_entry_kind_that_was_read() {
    let d = MagEntry::from_fetch(
        MagItem::from("/t".to_string(), dir_meta()),
        Fetched::Listing(Some(vec![child("/t/b", file_meta()), child("/t/a", file_meta())])),
    );
    match &d {
        MagEntry::Dir(f) => assert_eq!(paths(&f.items), vec!["/t/a", "/t/b"]),
        MagEntry::File(_) => panic!("expected a directory"),
    }
    let f = MagEntry::from_fetch(MagItem::from("/t/b".to_string(), file_meta()), Fetched::Contents(Ok(b"x".to_vec())));
    assert_eq!(f.get_file().unwrap().content, "x");
}

#[test]
fn clone_copies_nested_entries() {
    let mut d = folder("/t");
    d.get_entries(Some(vec![child("/t/s", dir_meta())]));
    let e = MagEntry::Dir(d);
    let c = e.clone();
    assert_eq!(c.get_folder_path(0), Some("/t/s".to_string()));
    assert_eq!(c.item().path, "/t");
}

#[test]
fn preview_of_exactly_the_read_size_keeps_every_byte() {
    let mut bytes = vec![b'y'; FILE_READ_BYTES];
    bytes.push(b'z');
    let f = MagFile::new_return(MagItem::from("/t/a".to_string(), file_meta()), Ok(bytes[..FILE_READ_BYTES].to_vec()));
    assert_eq!(f.content.len(), 250);
    let g = MagFile::new_return(MagItem::from("/t/a".to_string(), file_meta()), Ok(bytes));
    assert!(!g.content.contains('z'));
}

#[test]
fn preview_of_only_nuls_is_empty() {
    let f = MagFile::new_return(MagItem::from("/t/a".to_string(), file_meta()), Ok(vec![0u8; 10]));
    assert_eq!(f.content, "");
}
