use mag::filesys::{DirChild, Fetched, ItemMeta, MagEntry, MagItem};
use mag::pos::Pos;
use mag::state::{KeyAction, State, KEY_DOWN, KEY_LEFT, KEY_QUIT, KEY_RIGHT, KEY_UP};
use mag::ui::{MagWindow, TextStyle};
use mag::watch::Watcher;

fn file_meta() -> Option<ItemMeta> {
    Some(ItemMeta { is_file: true, is_dir: false, len: 3 })
}

fn dir_meta() -> Option<ItemMeta> {
    Some(ItemMeta { is_file: false, is_dir: true, len: 4096 })
}

fn child(path: &str, metadata: Option<ItemMeta>) -> DirChild {
    DirChild { path: path.to_string(), metadata }
}

fn item(path: &str) -> MagItem {
    MagItem::from(path.to_string(), dir_meta())
}

fn start() -> State {
    State::new(
        item("/w"),
        item("/"),
        100,
        40,
        Some(vec![child("/w", dir_meta())]),
        Some(vec![child("/w/b.txt", file_meta()), child("/w/a_dir", dir_meta())]),
    )
}

#[test]
fn navigator_starts_on_the_first_child() {
    let mut s = start();
    let current = match &s.mid_win.dir {
        MagEntry::Dir(d) => d.items.iter().map(|e| e.get_path().clone()).collect::<Vec<_>>(),
        MagEntry::File(_) => panic!("the current pane shows a directory"),
    };
    assert_eq!(current, vec!["/w/a_dir", "/w/b.txt"]);
    assert_eq!(s.mid_win.idx, 0);
    assert_eq!(s.path, "/w");
    assert_eq!(s.child_win.path, "/w/a_dir");
    assert!(s.child_win.dir.is_folder());
    s.child_win.fetch(Fetched::Listing(Some(vec![child("/w/a_dir/inner", file_meta())])));
    let rows = s.child_win.display();
    assert_eq!(rows.len(), 1);
    assert_eq!(rows[0].text, "/w/a_dir/inner");
    assert_eq!(s.parent_win.path, "/");
    assert_eq!(s.parent_win.dir.get_folder_path(0), Some("/w".to_string()));
}

#[test]
fn down_at_the_last_child_changes_nothing() {
    let mut s = start();
    assert_eq!(s.handle_key(KEY_DOWN), KeyAction::PreviewChanged);
    assert_eq!(s.mid_win.idx, 1);
    assert_eq!(s.child_win.path, "/w/b.txt");
    s.child_win.fetch(Fetched::Contents(Ok(b"hello".to_vec())));
    assert_eq!(s.handle_key(KEY_DOWN), KeyAction::Nothing);
    assert_eq!(s.mid_win.idx, 1);
    assert_eq!(s.child_win.path, "/w/b.txt");
    assert_eq!(s.child_win.display()[0].text, "hello");
}

#[test]
fn up_moves_back_and_previews_again() {
    let mut s = start();
    assert_eq!(s.handle_key(KEY_UP), KeyAction::Nothing);
    assert_eq!(s.handle_key(KEY_DOWN), KeyAction::PreviewChanged);
    assert_eq!(s.handle_key(KEY_UP), KeyAction::PreviewChanged);
    assert_eq!(s.mid_win.idx, 0);
    assert_eq!(s.child_win.path, "/w/a_dir");
    assert!(s.child_win.dir.is_folder());
}

#[test]
fn other_keys_do_nothing_and_q_quits() {
    let mut s = start();
    assert_eq!(s.handle_key(KEY_LEFT), KeyAction::Nothing);
    assert_eq!(s.handle_key(KEY_RIGHT), KeyAction::Nothing);
    assert_eq!(s.handle_key(120), KeyAction::Nothing);
    assert_eq!(s.handle_key(KEY_QUIT), KeyAction::Quit);
    assert_eq!(s.mid_win.idx, 0);
    assert_eq!(s.child_win.path, "/w/a_dir");
}

#[test]
fn empty_directory_has_an_empty_preview() {
    let mut s = State::new(item("/e"), item("/"), 50, 20, None, Some(Vec::new()));
    assert_eq!(s.child_win.path, "");
    assert!(s.child_win.dir.is_folder_empty());
    assert_eq!(s.handle_key(KEY_DOWN), KeyAction::Nothing);
    assert!(s.parent_win.dir.is_folder_empty());
}

#[test]
fn panes_are_laid_out_one_fifth_two_fifths_two_fifths() {
    let s = start();
    assert_eq!((s.parent_win.coord.x, s.parent_win.coord.y), (1, 1));
    assert_eq!((s.parent_win.dimensions.x, s.parent_win.dimensions.y), (20, 39));
    assert_eq!((s.mid_win.coord.x, s.mid_win.coord.y), (21, 1));
    assert_eq!((s.mid_win.dimensions.x, s.mid_win.dimensions.y), (40, 39));
    assert_eq!((s.child_win.coord.x, s.child_win.coord.y), (61, 1));
    assert_eq!((s.child_win.dimensions.x, s.child_win.dimensions.y), (40, 39));
}

#[test]
fn resize_only_when_the_terminal_changed() {
    let mut s = start();
    assert!(!s.resize(100, 40));
    assert!(s.resize(83, 24));
    assert_eq!((s.dim.x, s.dim.y), (83, 24));
    assert_eq!((s.parent_win.dimensions.x, s.parent_win.dimensions.y), (16, 23));
    assert_eq!((s.mid_win.coord.x, s.mid_win.dimensions.x), (17, 33));
    assert_eq!((s.child_win.coord.x, s.child_win.dimensions.x), (50, 33));
    assert_eq!(s.child_win.path, "/w/a_dir");
    assert_eq!(s.mid_win.idx, 0);
}

#[test]
fn empty_file_renders_as_empty_file() {
    let mut p = MagWindow::new_file(item("/w/empty"), Pos::new(1, 1), Pos::new(40, 20));
    p.fetch(Fetched::Contents(Ok(Vec::new())));
    let rows = p.display();
    assert_eq!(rows.len(), 1);
    assert_eq!(rows[0].text, "Empty File");
    assert_eq!((rows[0].row, rows[0].col), (1, 1));
}

#[test]
fn file_renders_line_by_line() {
    let mut p = MagWindow::new_file(item("/w/f"), Pos::new(1, 1), Pos::new(40, 20));
    p.fetch(Fetched::Contents(Ok(b"one\ntwo\n\nfour".to_vec())));
    let rows = p.display();
    let texts: Vec<&str> = rows.iter().map(|r| r.text.as_str()).collect();
    assert_eq!(texts, vec!["one", "two", "", "four"]);
    assert_eq!((rows[0].row, rows[0].col), (2, 1));
    assert_eq!(rows[3].row, 5);
    assert!(rows.iter().all(|r| r.style == TextStyle::Plain));
}

#[test]
fn file_rows_stop_at_the_window_edge() {
    let mut p = MagWindow::new_file(item("/w/f"), Pos::new(1, 1), Pos::new(40, 4));
    p.fetch(Fetched::Contents(Ok(b"1\n2\n3\n4\n5".to_vec())));
    let rows = p.display();
    assert_eq!(rows.len(), 2);
    assert_eq!(rows[1].text, "2");
}

#[test]
fn directory_rows_highlight_the_selection() {
    let mut p = MagWindow::new(item("/w"), Pos::new(1, 1), Pos::new(40, 20));
    p.fetch(Fetched::Listing(Some(vec![child("/w/f", file_meta()), child("/w/d", dir_meta()), child("/w/g", file_meta())])));
    p.idx = 2;
    let rows = p.display();
    assert_eq!(rows.len(), 3);
    assert_eq!((rows[0].row, rows[0].col, rows[0].text.as_str(), rows[0].style), (1, 2, "/w/d", TextStyle::Folder));
    assert_eq!((rows[1].row, rows[1].text.as_str(), rows[1].style), (2, "/w/f", TextStyle::Plain));
    assert_eq!((rows[2].row, rows[2].text.as_str(), rows[2].style), (3, "/w/g", TextStyle::Selected));
}

#[test]
fn directory_rows_are_cut_to_the_pane_height() {
    let mut p = MagWindow::new(item("/w"), Pos::new(1, 1), Pos::new(40, 6));
    p.fetch(Fetched::Listing(Some(vec![child("/w/a", file_meta()), child("/w/b", file_meta()), child("/w/c", file_meta())])));
    assert_eq!(p.display().len(), 2);
}

#[test]
fn refresh_clamps_the_selection() {
    let mut p = MagWindow::new(item("/w"), Pos::new(1, 1), Pos::new(40, 20));
    p.fetch(Fetched::Listing(Some(vec![child("/w/a", file_meta()), child("/w/b", file_meta()), child("/w/c", file_meta())])));
    p.idx = 2;
    p.fetch(Fetched::Listing(Some(vec![child("/w/a", file_meta()), child("/w/b", file_meta())])));
    assert_eq!(p.idx, 1);
    p.fetch(Fetched::Listing(Some(vec![child("/w/a", file_meta()), child("/w/b", file_meta()), child("/w/c", file_meta())])));
    assert_eq!(p.idx, 1);
    p.fetch(Fetched::Listing(Some(Vec::new())));
    assert_eq!(p.idx, 0);
}

#[test]
fn fetch_return_and_change_dim() {
    let p = MagWindow::new(item("/w"), Pos::new(1, 1), Pos::new(40, 20));
    let mut p = p.fetch_return(Fetched::Listing(Some(vec![child("/w/a", file_meta())])));
    assert_eq!(p.dir.get_folder_path(0), Some("/w/a".to_string()));
    p.change_dim(Pos::new(5, 2), Pos::new(10, 9));
    assert_eq!((p.coord.x, p.coord.y, p.dimensions.x, p.dimensions.y), (5, 2, 10, 9));
    assert_eq!(p.path, "/w");
    p.change_dir(MagEntry::from_fetch(item("/w/a"), Fetched::Contents(Ok(b"z".to_vec()))));
    assert_eq!(p.path, "/w/a");
    assert_eq!(p.display()[0].text, "z");
}

#[test]
fn watcher_reports_a_changed_count_once() {
    let mut w = Watcher::new(mag::filesys::MagFolder::new(item("/w")), 2);
    let two = || Some(vec![child("/w/a", file_meta()), child("/w/b", file_meta())]);
    let three = || Some(vec![child("/w/a", file_meta()), child("/w/b", file_meta()), child("/w/c", file_meta())]);
    assert!(!w.poll(two()));
    assert!(w.poll(three()));
    assert_eq!(w.size, 3);
    assert_eq!(w.dir.items.len(), 3);
    assert!(!w.poll(three()));
    assert!(!w.poll(None));
    assert_eq!(w.size, 3);
    assert_eq!(w.dir.items.len(), 3);
    assert!(w.poll(two()));
    assert_eq!(w.size, 2);
}

#[test]
fn watcher_runs_only_on_a_directory_preview() {
    let mut p = MagWindow::new(item("/w"), Pos::new(1, 1), Pos::new(40, 20));
    p.fetch(Fetched::Listing(Some(vec![child("/w/a", file_meta()), child("/w/b", dir_meta())])));
    let w = Watcher::for_pane(&p).unwrap();
    assert_eq!(w.size, 2);
    assert_eq!(w.dir.data.path, "/w");
    let f = MagWindow::new_file(item("/w/a"), Pos::new(1, 1), Pos::new(40, 20));
    assert!(Watcher::for_pane(&f).is_none());
}

#[test]
fn file_of_only_nuls_renders_as_empty_file() {
    let p = MagWindow::new_file(item("/w/z"), Pos::new(1, 1), Pos::new(40, 20));
    assert_eq!((p.my_pos.x, p.my_pos.y), (0, 0));
    let p = p.fetch_return(Fetched::Contents(Ok(vec![0u8; 4])));
    let rows = p.display();
    assert_eq!(rows.len(), 1);
    assert_eq!(rows[0].text, "Empty File");
}

#[test]
fn pos_holds_its_coordinates() {
    let p = Pos::new(3, -4);
    assert_eq!((p.x, p.y), (3, -4));
}

#[test]
fn file_lines_keep_multibyte_characters() {
    let mut p = MagWindow::new_file(item("/w/u"), Pos::new(1, 1), Pos::new(40, 20));
    p.fetch(Fetched::Contents(Ok("añb\n€\n".as_bytes().to_vec())));
    let rows = p.display();
    let texts: Vec<&str> = rows.iter().map(|r| r.text.as_str()).collect();
    assert_eq!(texts, vec!["añb", "€", ""]);
}
