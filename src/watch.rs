//! The decisions of the background watcher of the previewed directory.

use vstd::prelude::*;

use crate::filesys::{DirChild, FolderView, MagEntry, MagFolder, listing_spec, views};
use crate::ui::MagWindow;

verus! {

/// The state of the background watcher of a directory: the directory as last
/// listed, and the number of children last seen.
#[derive(Debug)]
pub struct Watcher {
    pub dir: MagFolder,
    pub size: usize,
}

/// What a poll that reads `listing` reports, and the count it then keeps,
/// given the count `size` last seen. A failed read is no change.
pub open spec fn poll_spec(size: nat, listing: Option<Vec<DirChild>>) -> (bool, nat) {
    match listing {
        Some(_) => (listing_spec(listing).len() != size, listing_spec(listing).len()),
        None => (false, size),
    }
}

/// A poll reports a change exactly when the number of children differs from
/// the last one seen. So a directory of `n` children that gains one is
/// reported once, a further poll that finds as many reports nothing, and a
/// poll that finds `n` again (a child added and removed between two polls)
/// reports nothing, and so does a poll whose read failed.
pub proof fn lemma_watch_reports_count_changes(
    n: nat,
    grown: Option<Vec<DirChild>>,
    again: Option<Vec<DirChild>>,
    same: Option<Vec<DirChild>>,
)
    requires
        grown is Some,
        again is Some,
        listing_spec(grown).len() == n + 1,
        listing_spec(again).len() == n + 1,
        listing_spec(same).len() == n,
    ensures
        poll_spec(n, grown) == (true, (n + 1) as nat),
        poll_spec(poll_spec(n, grown).1, again) == (false, (n + 1) as nat),
        poll_spec(n, same) == (false, n),
        poll_spec(n, None) == (false, n),
{
}

impl Watcher {
    /// A watcher of `dir` that last saw `size` children.
    pub fn new(dir: MagFolder, size: usize) -> (r: Self)
        ensures
            r.dir@ == dir@,
            r.size == size,
    {
        Watcher { dir, size }
    }

    /// The watcher of the directory that a preview pane shows, starting from
    /// the children it shows; `None` where the pane shows a file.
    pub fn for_pane(pane: &MagWindow) -> (r: Option<Self>)
        ensures
            r is Some <==> pane.dir@ is Dir,
            r matches Some(w) ==> pane.dir@ == crate::filesys::EntryView::Dir(w.dir@) && w.size
                == pane.dir@.children().len(),
    {
        match &pane.dir {
            MagEntry::Dir(d) => {
                let dir = d.clone();
                let size = dir.items.len();
                proof {
                    assert(dir@.items =~= views(dir.items@));
                }
                Some(Watcher { dir, size })
            },
            MagEntry::File(_) => None,
        }
    }

    /// Lists the directory again from `listing`, what reading it returned.
    /// True where the number of children differs from the last one seen,
    /// which the new number then replaces. A failed read changes nothing and
    /// reports nothing.
    pub fn poll(&mut self, listing: Option<Vec<DirChild>>) -> (r: bool)
        ensures
            listing is Some ==> final(self).dir@ == (FolderView {
                data: old(self).dir@.data,
                items: listing_spec(listing),
            }),
            listing is None ==> final(self).dir@ == old(self).dir@,
            (r, final(self).size as nat) == poll_spec(old(self).size as nat, listing),
    {
        if listing.is_none() {
            return false;
        }
        self.dir.get_entries(listing);
        let n = self.dir.items.len();
        proof {
            assert(self.dir@.items.len() == n);
        }
        let changed = n != self.size;
        self.size = n;
        changed
    }
}

} // verus!
