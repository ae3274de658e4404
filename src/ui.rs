//! A pane: a path, a window geometry, a selection and the last entry read,
//! with what it draws.

use vstd::prelude::*;
use vstd::string::StrSliceExecFns;

use crate::filesys::{
    DirChild, EntryView, Fetched, FileView, FolderView, ItemView, MagEntry, MagFile, MagFolder, MagItem,
    fetched_view, listing_spec, views,
};
use crate::pos::Pos;
use crate::preview::reads_nothing;

verus! {

broadcast use vstd::std_specs::vec::group_vec_axioms;

/// How a row of text is drawn.
#[derive(Debug, Clone, Copy, PartialEq, Eq, Structural)]
pub enum TextStyle {
    Plain,
    Folder,
    Selected,
}

/// A piece of text to write at a row and column of a pane's window.
#[derive(Debug)]
pub struct DrawText {
    pub row: i32,
    pub col: i32,
    pub text: String,
    pub style: TextStyle,
}

/// The mathematical value of a [`DrawText`].
pub struct TextRow {
    pub row: int,
    pub col: int,
    pub text: Seq<char>,
    pub style: TextStyle,
}

impl View for DrawText {
    type V = TextRow;

    open spec fn view(&self) -> TextRow {
        TextRow { row: self.row as int, col: self.col as int, text: self.text@, style: self.style }
    }
}

/// A pane: a path, the window it is drawn in, a selection and the last
/// entry read for the path.
#[derive(Debug)]
pub struct MagWindow {
    pub path: String,
    pub dimensions: Pos<i32>,
    pub idx: usize,
    pub coord: Pos<i32>,
    pub my_pos: Pos<i32>,
    pub dir: MagEntry,
}

/// The pieces of a text between its newlines.
pub open spec fn lines_of(s: Seq<char>) -> Seq<Seq<char>>
    decreases s.len(),
{
    if s.len() == 0 {
        seq![Seq::empty()]
    } else if s.last() == '\n' {
        lines_of(s.drop_last()).push(Seq::empty())
    } else {
        let l = lines_of(s.drop_last());
        l.update(l.len() - 1, l.last().push(s.last()))
    }
}

pub proof fn lemma_lines_of_len(s: Seq<char>)
    ensures
        1 <= lines_of(s).len() <= s.len() + 1,
    decreases s.len(),
{
    if s.len() > 0 {
        lemma_lines_of_len(s.drop_last());
    }
}

/// The pieces of `s` between its newlines, in order.
fn split_lines(s: &str) -> (r: Vec<String>)
    ensures
        r@.map_values(|p: String| p@) == lines_of(s@),
{
    let n = s.unicode_len();
    let mut done: Vec<String> = Vec::new();
    let mut start: usize = 0;
    let mut i: usize = 0;
    assert(s@.take(0) =~= Seq::<char>::empty());
    assert(Seq::<Seq<char>>::empty().push(s@.subrange(0, 0)) =~= seq![Seq::<char>::empty()]);
    while i < n
        invariant
            n == s@.len(),
            start <= i <= n,
            lines_of(s@.take(i as int)) == done@.map_values(|p: String| p@).push(s@.subrange(start as int, i as int)),
        decreases n - i,
    {
        let c = s.get_char(i);
        let ghost prev = done@.map_values(|p: String| p@);
        proof {
            assert(s@.take(i + 1).drop_last() =~= s@.take(i as int));
            assert(s@.take(i + 1).last() == c);
        }
        if c == '\n' {
            let piece = s.substring_char(start, i).to_owned();
            let ghost pv = piece@;
            done.push(piece);
            proof {
                assert(done@.map_values(|p: String| p@) =~= prev.push(pv));
                assert(pv == s@.subrange(start as int, i as int));
                assert(lines_of(s@.take(i + 1)) == lines_of(s@.take(i as int)).push(Seq::empty()));
                assert(s@.subrange(i + 1, i + 1) =~= Seq::<char>::empty());
            }
            start = i + 1;
        } else {
            proof {
                assert(s@.subrange(start as int, i as int).push(c) =~= s@.subrange(start as int, i + 1));
                let l = prev.push(s@.subrange(start as int, i as int));
                assert(l.update(l.len() - 1, l.last().push(c)) =~= prev.push(s@.subrange(start as int, i + 1)));
                assert(lines_of(s@.take(i + 1)) == l.update(l.len() - 1, l.last().push(c)));
            }
        }
        i += 1;
    }
    let last = s.substring_char(start, n).to_owned();
    let ghost prev = done@.map_values(|p: String| p@);
    let ghost lv = last@;
    done.push(last);
    proof {
        assert(s@.take(n as int) =~= s@);
        assert(done@.map_values(|p: String| p@) =~= prev.push(lv));
    }
    done
}

/// The smaller of `a` and `b`, and never below 0.
pub open spec fn fit(a: int, b: int) -> nat {
    if a <= 0 || b <= 0 {
        0
    } else if a < b {
        a as nat
    } else {
        b as nat
    }
}

/// How a row of a listing is drawn: the selected row highlighted,
/// directories in their own colour.
pub open spec fn row_style(e: EntryView, selected: bool) -> TextStyle {
    if selected {
        TextStyle::Selected
    } else if e is Dir {
        TextStyle::Folder
    } else {
        TextStyle::Plain
    }
}

/// What a pane of the given height draws for an entry. A directory draws
/// one row per child from row 1, at most `height - 4` of them, each child's
/// path at column 2. A file draws its snapshot line by line
/// from row 2 at column 1, down to the window's edge, and an empty snapshot
/// is drawn as the text "Empty File".
pub open spec fn pane_rows(e: EntryView, idx: usize, height: i32) -> Seq<TextRow> {
    match e {
        EntryView::Dir(d) => Seq::new(
            fit(d.items.len() as int, height - 4),
            |i: int|
                TextRow {
                    row: i + 1,
                    col: 2,
                    text: d.items[i].data().path,
                    style: row_style(d.items[i], i == idx),
                },
        ),
        EntryView::File(f) => if f.content.len() == 0 {
            seq![TextRow { row: 1, col: 1, text: "Empty File"@, style: TextStyle::Plain }]
        } else {
            Seq::new(
                fit(lines_of(f.content).len() as int, height - 2),
                |i: int|
                    TextRow { row: i + 2, col: 1, text: lines_of(f.content)[i], style: TextStyle::Plain },
            )
        },
    }
}

/// Where an index stands after the entry it points into was read again: kept
/// where it is still in range, else on the last child, or 0 where there is
/// none. A file has no children and keeps it.
pub open spec fn clamp_index(idx: usize, e: EntryView) -> usize {
    match e {
        EntryView::Dir(d) => if idx < d.items.len() {
            idx
        } else if d.items.len() == 0 {
            0
        } else {
            (d.items.len() - 1) as usize
        },
        EntryView::File(_) => idx,
    }
}

/// After a directory pane is read again, its selection points at a child,
/// or is 0 where none is left; where the directory shrank to `m` children
/// at or below the selection, the selection lands on the last one.
pub proof fn lemma_refresh_clamps(idx: usize, data: ItemView, listing: Option<Vec<DirChild>>)
    ensures
        ({
            let e = fetched_view(data, Fetched::Listing(listing));
            let m = listing_spec(listing).len();
            let k = clamp_index(idx, e);
            &&& m == 0 ==> k == 0
            &&& m > 0 ==> k < m
            &&& idx < m ==> k == idx
            &&& 0 < m <= idx ==> k == m - 1
        }),
{
}

/// Pushing the next row onto a prefix of `rows` gives the next prefix.
proof fn lemma_rows_push(before: Seq<DrawText>, t: DrawText, rows: Seq<TextRow>)
    requires
        before.map_values(|d: DrawText| d@) == rows.take(before.len() as int),
        before.len() < rows.len(),
        rows[before.len() as int] == t@,
    ensures
        before.push(t).map_values(|d: DrawText| d@) == rows.take(before.len() as int + 1),
{
    let m = before.push(t).map_values(|d: DrawText| d@);
    let mb = before.map_values(|d: DrawText| d@);
    assert forall|j: int| 0 <= j < before.len() implies m[j] == rows.take(before.len() as int + 1)[j] by {
        assert(before.push(t)[j] == before[j]);
        assert(mb[j] == rows.take(before.len() as int)[j]);
    }
    assert(m =~= rows.take(before.len() as int + 1));
}

impl MagWindow {
    /// The rows that this pane draws.
    pub open spec fn rows(&self) -> Seq<TextRow> {
        pane_rows(self.dir@, self.idx, self.dimensions.y)
    }

    /// A pane on a directory that has not been listed yet.
    pub fn new(data: MagItem, coord: Pos<i32>, dimensions: Pos<i32>) -> (r: Self)
        ensures
            r.path@ == data@.path,
            r.idx == 0,
            r.coord == coord,
            r.dimensions == dimensions,
            r.my_pos == (Pos { x: 0i32, y: 0i32 }),
            r.dir@ == EntryView::Dir(FolderView { data: data@, items: Seq::empty() }),
    {
        let path = data.path.clone();
        let dir = MagEntry::Dir(MagFolder::new(data));
        Self { path, idx: 0, coord, dimensions, dir, my_pos: Pos { x: 0, y: 0 } }
    }

    /// A pane on a file that has not been read yet.
    pub fn new_file(data: MagItem, coord: Pos<i32>, dimensions: Pos<i32>) -> (r: Self)
        ensures
            r.path@ == data@.path,
            r.idx == 0,
            r.coord == coord,
            r.dimensions == dimensions,
            r.my_pos == (Pos { x: 0i32, y: 0i32 }),
            r.dir@ == EntryView::File(FileView { data: data@, content: Seq::empty() }),
    {
        let path = data.path.clone();
        let dir = MagEntry::File(MagFile::new(data));
        Self { path, idx: 0, coord, dimensions, dir, my_pos: Pos { x: 0, y: 0 } }
    }

    /// The text that this pane puts in its window.
    pub fn display(&self) -> (r: Vec<DrawText>)
        ensures
            r@.map_values(|t: DrawText| t@) == self.rows(),
    {
        let mut out: Vec<DrawText> = Vec::new();
        match &self.dir {
            MagEntry::Dir(d) => {
                let ghost n = fit(d.items.len() as int, self.dimensions.y - 4);
                let mut c: usize = 0;
                while c < d.items.len() && (c as i64) <= (self.dimensions.y as i64) - 5
                    invariant
                        self.dir == MagEntry::Dir(*d),
                        c <= n,
                        n == fit(d.items@.len() as int, self.dimensions.y - 4),
                        out@.map_values(|t: DrawText| t@) == self.rows().take(c as int),
                    decreases d.items@.len() - c,
                {
                    let item = &d.items[c];
                    let style = if c == self.idx {
                        TextStyle::Selected
                    } else if item.is_folder() {
                        TextStyle::Folder
                    } else {
                        TextStyle::Plain
                    };
                    let t = DrawText { row: c as i32 + 1, col: 2, text: item.get_path().clone(), style };
                    proof {
                        assert(views(d.items@)[c as int] == d.items@[c as int]@);
                        assert(self.dir@.children() =~= views(d.items@));
                        assert(out@.map_values(|t: DrawText| t@).len() == out@.len());
                        assert(self.rows().len() == n);
                        lemma_rows_push(out@, t, self.rows());
                    }
                    out.push(t);
                    c += 1;
                }
                proof {
                    assert(self.rows().take(c as int) =~= self.rows());
                }
            },
            MagEntry::File(f) => {
                if f.content.as_str().is_empty() {
                    out.push(DrawText { row: 1, col: 1, text: "Empty File".to_owned(), style: TextStyle::Plain });
                    proof {
                        assert(out@.map_values(|t: DrawText| t@) =~= self.rows());
                    }
                } else {
                    let lines = split_lines(f.content.as_str());
                    proof {
                        lemma_lines_of_len(f.content@);
                    }
                    let ghost n = fit(lines@.len() as int, self.dimensions.y - 2);
                    let mut i: usize = 0;
                    while i < lines.len() && (i as i64) + 2 < (self.dimensions.y as i64)
                        invariant
                            self.dir == MagEntry::File(*f),
                            f.content@.len() > 0,
                            lines@.map_values(|p: String| p@) == lines_of(f.content@),
                            i <= n,
                            n == fit(lines@.len() as int, self.dimensions.y - 2),
                            out@.map_values(|t: DrawText| t@) == self.rows().take(i as int),
                        decreases lines@.len() - i,
                    {
                        let t = DrawText { row: i as i32 + 2, col: 1, text: lines[i].clone(), style: TextStyle::Plain };
                        proof {
                            assert(lines@.map_values(|p: String| p@)[i as int] == lines@[i as int]@);
                            assert(out@.map_values(|t: DrawText| t@).len() == out@.len());
                        assert(self.rows().len() == n);
                        lemma_rows_push(out@, t, self.rows());
                        }
                        out.push(t);
                        i += 1;
                    }
                    proof {
                        assert(self.rows().take(i as int) =~= self.rows());
                    }
                }
            },
        }
        out
    }

    /// Replaces the entry with what was read again for it, and keeps the
    /// selection inside the new children. A file read with nothing to show
    /// is drawn as the single row "Empty File".
    pub fn fetch(&mut self, fetched: Fetched)
        ensures
            final(self).dir@ == fetched_view(old(self).dir@.data(), fetched),
            final(self).idx == clamp_index(old(self).idx, final(self).dir@),
            fetched matches Fetched::Contents(c) && reads_nothing(c) ==> final(self).rows() == seq![
                TextRow { row: 1, col: 1, text: "Empty File"@, style: TextStyle::Plain },
            ],
            final(self).path == old(self).path,
            final(self).coord == old(self).coord,
            final(self).dimensions == old(self).dimensions,
            final(self).my_pos == old(self).my_pos,
    {
        let data = self.dir.item();
        self.dir = MagEntry::from_fetch(data, fetched);
        let n = match &self.dir {
            MagEntry::Dir(d) => Some(d.items.len()),
            MagEntry::File(_) => None,
        };
        if let Some(n) = n {
            if self.idx >= n {
                self.idx = if n == 0 {
                    0
                } else {
                    n - 1
                };
            }
        }
        proof {
            if let MagEntry::Dir(d) = &self.dir {
                assert(self.dir@.children() =~= views(d.items@));
            }
        }
    }

    /// As [`MagWindow::fetch`], by value.
    pub fn fetch_return(self, fetched: Fetched) -> (r: Self)
        ensures
            r.dir@ == fetched_view(self.dir@.data(), fetched),
            r.idx == clamp_index(self.idx, r.dir@),
            fetched matches Fetched::Contents(c) && reads_nothing(c) ==> r.rows() == seq![
                TextRow { row: 1, col: 1, text: "Empty File"@, style: TextStyle::Plain },
            ],
            r.path == self.path,
            r.coord == self.coord,
            r.dimensions == self.dimensions,
            r.my_pos == self.my_pos,
    {
        let mut w = self;
        w.fetch(fetched);
        w
    }

    /// Shows `entry` in this pane, with the selection on its first child.
    pub fn change_dir(&mut self, entry: MagEntry)
        ensures
            final(self).dir@ == entry@,
            final(self).path@ == entry@.data().path,
            final(self).idx == 0,
            final(self).coord == old(self).coord,
            final(self).dimensions == old(self).dimensions,
            final(self).my_pos == old(self).my_pos,
    {
        self.path = entry.get_path().clone();
        self.dir = entry;
        self.idx = 0;
    }

    /// Moves and resizes the pane's window; the entry is not read again.
    pub fn change_dim(&mut self, coord: Pos<i32>, dim: Pos<i32>)
        ensures
            final(self).coord == coord,
            final(self).dimensions == dim,
            final(self).path == old(self).path,
            final(self).idx == old(self).idx,
            final(self).dir == old(self).dir,
            final(self).my_pos == old(self).my_pos,
    {
        self.dimensions = dim;
        self.coord = coord;
    }
}

} // verus!
