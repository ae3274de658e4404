//! The navigator: three panes kept consistent as the selection moves, the
//! key handling and the layout of the panes on the terminal.

use vstd::prelude::*;

use crate::filesys::{
    DirChild, EntryView, Fetched, FolderView, ItemView, MagEntry, MagFolder, MagItem, fetched_view, views,
};
use crate::pos::Pos;
use crate::ui::MagWindow;

verus! {

broadcast use vstd::std_specs::vec::group_vec_axioms;

/// The row at which the panes start; the row above shows the current path.
pub const START_TOP: i32 = 1;

/// `h`: ascend (reserved).
pub const KEY_LEFT: i32 = 104;

/// `j`: select the next child.
pub const KEY_DOWN: i32 = 106;

/// `k`: select the previous child.
pub const KEY_UP: i32 = 107;

/// `l`: descend (reserved).
pub const KEY_RIGHT: i32 = 108;

/// `q`: quit.
pub const KEY_QUIT: i32 = 113;

/// What the caller does after a key was handled.
#[derive(Debug, Clone, Copy, PartialEq, Eq, Structural)]
pub enum KeyAction {
    /// Nothing changed.
    Nothing,
    /// The selection moved and the preview pane shows another child, not
    /// read yet: read it, then draw the current and the preview panes.
    PreviewChanged,
    /// Leave the browser.
    Quit,
}

/// The navigator: the parent, current and preview panes, the current
/// directory and the last terminal size seen.
#[derive(Debug)]
pub struct State {
    pub child_win: MagWindow,
    pub mid_win: MagWindow,
    pub parent_win: MagWindow,
    pub path: String,
    pub dim: Pos<i32>,
}

/// Width of the parent pane: a fifth of the terminal.
pub open spec fn parent_width(w: int) -> int {
    w / 5
}

/// Width of the current pane, and of the preview pane: two fifths of the
/// terminal.
pub open spec fn wide_width(w: int) -> int {
    (2 * w) / 5
}

/// The panes of `s` stand side by side on a terminal `w` wide and `h` high:
/// parent, current and preview from the left, from row [`START_TOP`] down.
pub open spec fn in_layout(s: State, w: int, h: int) -> bool {
    let pw = parent_width(w);
    let ww = wide_width(w);
    &&& s.parent_win.coord.x == 1 && s.parent_win.coord.y == START_TOP
    &&& s.parent_win.dimensions.x == pw && s.parent_win.dimensions.y == h - START_TOP
    &&& s.mid_win.coord.x == 1 + pw && s.mid_win.coord.y == START_TOP
    &&& s.mid_win.dimensions.x == ww && s.mid_win.dimensions.y == h - START_TOP
    &&& s.child_win.coord.x == 1 + pw + ww && s.child_win.coord.y == START_TOP
    &&& s.child_win.dimensions.x == ww && s.child_win.dimensions.y == h - START_TOP
}

/// The selection points at a child, or is 0 where there is none.
pub open spec fn selection_ok(idx: usize, e: EntryView) -> bool {
    if e.children().len() == 0 {
        idx == 0
    } else {
        idx < e.children().len()
    }
}

/// The panes `a` and `b` show the same path, entry and selection.
pub open spec fn same_content(a: MagWindow, b: MagWindow) -> bool {
    &&& a.path == b.path
    &&& a.idx == b.idx
    &&& a.dir == b.dir
    &&& a.my_pos == b.my_pos
}

/// The pane `p` shows the entry `e`, with the selection at the top.
pub open spec fn shows(p: MagWindow, e: EntryView) -> bool {
    &&& p.dir@ == e
    &&& p.path@ == e.data().path
    &&& p.idx == 0
}

/// What the preview pane shows where the current directory has no child:
/// an empty directory with an empty path.
pub open spec fn no_preview() -> EntryView {
    EntryView::Dir(FolderView { data: ItemView { path: Seq::empty(), metadata: None }, items: Seq::empty() })
}

/// `new` is `old` with the selection moved to the child at `i` and the
/// preview pane on that child, in the same window.
pub open spec fn moved_to(old: State, new: State, i: int) -> bool {
    let c = old.mid_win.dir@.children();
    &&& new.mid_win == (MagWindow { idx: i as usize, ..old.mid_win })
    &&& new.parent_win == old.parent_win
    &&& new.path == old.path
    &&& new.dim == old.dim
    &&& shows(new.child_win, c[i])
    &&& new.child_win.coord == old.child_win.coord
    &&& new.child_win.dimensions == old.child_win.dimensions
    &&& new.child_win.my_pos == old.child_win.my_pos
}

impl State {
    /// The current pane holds a directory and its selection is in range.
    pub open spec fn wf(&self) -> bool {
        &&& self.mid_win.dir@ is Dir
        &&& selection_ok(self.mid_win.idx, self.mid_win.dir@)
    }

    /// The children of the current directory.
    pub open spec fn children(&self) -> Seq<EntryView> {
        self.mid_win.dir@.children()
    }

    /// The geometry of the three panes for a terminal `w` wide and `h` high.
    fn layout(w: i32, h: i32) -> (r: (Pos<i32>, Pos<i32>, Pos<i32>, Pos<i32>, Pos<i32>, Pos<i32>))
        requires
            0 <= w,
            0 <= h,
        ensures
            r.0.x == 1 && r.0.y == START_TOP,
            r.1.x == parent_width(w as int) && r.1.y == h - START_TOP,
            r.2.x == 1 + parent_width(w as int) && r.2.y == START_TOP,
            r.3.x == wide_width(w as int) && r.3.y == h - START_TOP,
            r.4.x == 1 + parent_width(w as int) + wide_width(w as int) && r.4.y == START_TOP,
            r.5.x == wide_width(w as int) && r.5.y == h - START_TOP,
    {
        let pw: i32 = w / 5;
        let ww: i32 = ((2 * (w as i64)) / 5) as i32;
        let height: i32 = h - START_TOP;
        (
            Pos { x: 1, y: START_TOP },
            Pos { x: pw, y: height },
            Pos { x: 1 + pw, y: START_TOP },
            Pos { x: ww, y: height },
            Pos { x: 1 + pw + ww, y: START_TOP },
            Pos { x: ww, y: height },
        )
    }

    /// A copy of the child at `idx` of `mid`, or an empty directory with an
    /// empty path where `mid` has no child.
    fn selected_entry(mid: &MagWindow, idx: usize) -> (r: MagEntry)
        requires
            mid.dir@ is Dir,
            selection_ok(idx, mid.dir@),
        ensures
            mid.dir@.children().len() > 0 ==> r@ == mid.dir@.children()[idx as int],
            mid.dir@.children().len() == 0 ==> r@ == no_preview(),
    {
        match &mid.dir {
            MagEntry::Dir(d) => {
                proof {
                    assert(mid.dir@.children() =~= views(d.items@));
                }
                if d.items.len() == 0 {
                    let r = MagEntry::Dir(MagFolder::new(MagItem::from(String::new(), None)));
                    r
                } else {
                    proof {
                        assert(views(d.items@)[idx as int] == d.items@[idx as int]@);
                    }
                    d.items[idx].clone()
                }
            },
            MagEntry::File(f) => {
                proof {
                    assert(false);
                }
                MagEntry::File(f.clone())
            },
        }
    }

    /// The navigator on the directory `path`, inside `parent`, for a terminal
    /// `w` wide and `h` high. `parent_listing` and `listing` are what reading
    /// the two directories returned. The preview pane is on the first child
    /// of `path`, not read yet.
    pub fn new(
        path: MagItem,
        parent: MagItem,
        w: i32,
        h: i32,
        parent_listing: Option<Vec<DirChild>>,
        listing: Option<Vec<DirChild>>,
    ) -> (r: Self)
        requires
            0 <= w,
            0 <= h,
        ensures
            r.wf(),
            in_layout(r, w as int, h as int),
            r.dim == (Pos { x: w, y: h }),
            r.path@ == path@.path,
            r.parent_win.dir@ == fetched_view(parent@, Fetched::Listing(parent_listing)),
            r.parent_win.path@ == parent@.path,
            r.parent_win.idx == 0,
            r.mid_win.dir@ == fetched_view(path@, Fetched::Listing(listing)),
            r.mid_win.path@ == path@.path,
            r.mid_win.idx == 0,
            r.children().len() > 0 ==> shows(r.child_win, r.children()[0]),
            r.children().len() == 0 ==> shows(r.child_win, no_preview()),
    {
        let (pc, pd, mc, md, cc, cd) = Self::layout(w, h);
        let current = path.path.clone();
        let parent_win = MagWindow::new(parent, pc, pd).fetch_return(Fetched::Listing(parent_listing));
        let mid_win = MagWindow::new(path, mc, md).fetch_return(Fetched::Listing(listing));
        let first = Self::selected_entry(&mid_win, 0);
        let mut child_win = MagWindow::new(first.item(), cc, cd);
        child_win.change_dir(first);
        State { child_win, mid_win, parent_win, path: current, dim: Pos { x: w, y: h } }
    }

    /// Selects the next child, where there is one, and moves the preview pane
    /// onto it; true where the selection moved.
    pub fn handle_movment_down(&mut self) -> (r: bool)
        requires
            old(self).wf(),
        ensures
            final(self).wf(),
            old(self).mid_win.idx + 1 < old(self).children().len() ==> r && moved_to(
                *old(self),
                *final(self),
                old(self).mid_win.idx + 1,
            ),
            old(self).mid_win.idx + 1 >= old(self).children().len() ==> !r && *final(self)
                == *old(self),
    {
        let len = match &self.mid_win.dir {
            MagEntry::Dir(d) => d.items.len(),
            MagEntry::File(_) => 0,
        };
        proof {
            if let MagEntry::Dir(d) = &self.mid_win.dir {
                assert(self.children() =~= views(d.items@));
            }
        }
        if self.mid_win.idx + 1 < len {
            self.mid_win.idx = self.mid_win.idx + 1;
            let e = Self::selected_entry(&self.mid_win, self.mid_win.idx);
            self.child_win.change_dir(e);
            true
        } else {
            false
        }
    }

    /// Selects the previous child, where there is one, and moves the preview
    /// pane onto it; true where the selection moved.
    pub fn handle_movment_up(&mut self) -> (r: bool)
        requires
            old(self).wf(),
        ensures
            final(self).wf(),
            old(self).mid_win.idx > 0 ==> r && moved_to(
                *old(self),
                *final(self),
                old(self).mid_win.idx - 1,
            ),
            old(self).mid_win.idx == 0 ==> !r && *final(self) == *old(self),
    {
        if self.mid_win.idx > 0 {
            self.mid_win.idx = self.mid_win.idx - 1;
            let e = Self::selected_entry(&self.mid_win, self.mid_win.idx);
            self.child_win.change_dir(e);
            true
        } else {
            false
        }
    }

    /// Ascending is reserved: nothing changes.
    pub fn handle_movment_left(&mut self)
        ensures
            *final(self) == *old(self),
    {
    }

    /// Descending is reserved: nothing changes.
    pub fn handle_movment_right(&mut self)
        ensures
            *final(self) == *old(self),
    {
    }

    /// Handles one key: `j` and `k` move the selection, `q` quits, and any
    /// other key changes nothing.
    pub fn handle_key(&mut self, ch: i32) -> (r: KeyAction)
        requires
            old(self).wf(),
        ensures
            final(self).wf(),
            ch == KEY_DOWN && old(self).mid_win.idx + 1 < old(self).children().len() ==> r
                == KeyAction::PreviewChanged && moved_to(*old(self), *final(self), old(self).mid_win.idx + 1),
            ch == KEY_UP && old(self).mid_win.idx > 0 ==> r == KeyAction::PreviewChanged && moved_to(
                *old(self),
                *final(self),
                old(self).mid_win.idx - 1,
            ),
            ch == KEY_QUIT ==> r == KeyAction::Quit && *final(self) == *old(self),
            r == KeyAction::Nothing <==> *final(self) == *old(self) && ch != KEY_QUIT,
            r == KeyAction::Nothing <==> !(ch == KEY_QUIT || ch == KEY_DOWN && old(self).mid_win.idx + 1
                < old(self).children().len() || ch == KEY_UP && old(self).mid_win.idx > 0),
    {
        if ch == KEY_QUIT {
            KeyAction::Quit
        } else if ch == KEY_DOWN {
            if self.handle_movment_down() {
                KeyAction::PreviewChanged
            } else {
                KeyAction::Nothing
            }
        } else if ch == KEY_UP {
            if self.handle_movment_up() {
                KeyAction::PreviewChanged
            } else {
                KeyAction::Nothing
            }
        } else if ch == KEY_LEFT {
            self.handle_movment_left();
            KeyAction::Nothing
        } else if ch == KEY_RIGHT {
            self.handle_movment_right();
            KeyAction::Nothing
        } else {
            KeyAction::Nothing
        }
    }

    /// Where the terminal is no longer `w` by `h`, lays the panes out again
    /// for the new size and returns true; their content is not read again.
    pub fn resize(&mut self, w: i32, h: i32) -> (r: bool)
        requires
            0 <= w,
            0 <= h,
        ensures
            r == (w != old(self).dim.x || h != old(self).dim.y),
            r ==> in_layout(*final(self), w as int, h as int) && final(self).dim == (Pos {
                x: w,
                y: h,
            }) && final(self).path == old(self).path && same_content(
                final(self).parent_win,
                old(self).parent_win,
            ) && same_content(final(self).mid_win, old(self).mid_win) && same_content(
                final(self).child_win,
                old(self).child_win,
            ),
            !r ==> *final(self) == *old(self),
            final(self).wf() == old(self).wf(),
    {
        if w != self.dim.x || h != self.dim.y {
            let (pc, pd, mc, md, cc, cd) = Self::layout(w, h);
            self.parent_win.change_dim(pc, pd);
            self.mid_win.change_dim(mc, md);
            self.child_win.change_dim(cc, cd);
            self.dim = Pos { x: w, y: h };
            true
        } else {
            false
        }
    }
}

} // verus!
