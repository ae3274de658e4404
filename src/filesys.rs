//! Directory and file entries, their mathematical views, and how a read of
//! a directory or a file becomes an entry.

use vstd::prelude::*;
use vstd::utf8::encode_utf8;

use crate::order::{
    bytes_le_exec, entry_le, insert_sorted, lemma_insert_at, lemma_sort_spec, sort_spec,
};
use crate::preview::{preview_exec, preview_text, reads_nothing};

verus! {

broadcast use vstd::std_specs::vec::group_vec_axioms;

/// What a metadata lookup reported about a path.
#[derive(Debug, Clone, Copy)]
pub struct ItemMeta {
    pub is_file: bool,
    pub is_dir: bool,
    pub len: u64,
}

/// One child that a read of a directory produced: its path, and what the
/// metadata lookup of that path returned (`None` where it failed).
#[derive(Debug)]
pub struct DirChild {
    pub path: String,
    pub metadata: Option<ItemMeta>,
}

/// A path together with what its metadata lookup returned, if it succeeded.
#[derive(Debug)]
pub struct MagItem {
    pub path: String,
    pub metadata: Option<ItemMeta>,
}

/// A file and a snapshot of its first bytes, decoded as text.
#[derive(Debug)]
pub struct MagFile {
    pub data: MagItem,
    pub content: String,
}

/// A directory and, once listed, its children.
#[derive(Debug)]
pub struct MagFolder {
    pub data: MagItem,
    pub items: Vec<MagEntry>,
}

/// A file system node: a directory or a file.
#[derive(Debug)]
pub enum MagEntry {
    Dir(MagFolder),
    File(MagFile),
}

/// The mathematical value of a [`MagItem`].
pub struct ItemView {
    pub path: Seq<char>,
    pub metadata: Option<ItemMeta>,
}

/// The mathematical value of a [`MagFile`].
pub struct FileView {
    pub data: ItemView,
    pub content: Seq<char>,
}

/// The mathematical value of a [`MagFolder`].
pub struct FolderView {
    pub data: ItemView,
    pub items: Seq<EntryView>,
}

/// The mathematical value of a [`MagEntry`].
pub enum EntryView {
    Dir(FolderView),
    File(FileView),
}

/// The view of a directory: its item, and the view of each child in order.
/// (The second branch of the closure is never taken: `i` is always in range.)
pub open spec fn folder_view(d: &MagFolder) -> FolderView
    decreases d,
{
    FolderView {
        data: d.data@,
        items: Seq::new(
            d.items.len() as nat,
            |i: int|
                if 0 <= i < d.items.len() {
                    entry_view(&d.items@[i])
                } else {
                    EntryView::Dir(FolderView { data: d.data@, items: Seq::empty() })
                },
        ),
    }
}

/// The view of an entry, variant by variant.
pub open spec fn entry_view(e: &MagEntry) -> EntryView
    decreases e,
{
    match e {
        MagEntry::Dir(d) => EntryView::Dir(folder_view(d)),
        MagEntry::File(f) => EntryView::File(f@),
    }
}

impl View for MagItem {
    type V = ItemView;

    open spec fn view(&self) -> ItemView {
        ItemView { path: self.path@, metadata: self.metadata }
    }
}

impl View for MagFile {
    type V = FileView;

    open spec fn view(&self) -> FileView {
        FileView { data: self.data@, content: self.content@ }
    }
}

impl View for MagFolder {
    type V = FolderView;

    open spec fn view(&self) -> FolderView {
        folder_view(self)
    }
}

impl View for MagEntry {
    type V = EntryView;

    open spec fn view(&self) -> EntryView {
        entry_view(self)
    }
}

impl Clone for MagItem {
    fn clone(&self) -> (r: Self)
        ensures
            r@ == self@,
    {
        MagItem { path: self.path.clone(), metadata: self.metadata }
    }
}

impl Clone for MagFile {
    fn clone(&self) -> (r: Self)
        ensures
            r@ == self@,
    {
        MagFile { data: self.data.clone(), content: self.content.clone() }
    }
}

impl Clone for MagFolder {
    fn clone(&self) -> (r: Self)
        ensures
            r@ == self@,
        decreases self,
    {
        let mut items: Vec<MagEntry> = Vec::new();
        let mut i: usize = 0;
        while i < self.items.len()
            invariant
                i <= self.items@.len(),
                views(items@) == views(self.items@).take(i as int),
            decreases self.items@.len() - i,
        {
            proof {
                assert(decreases_to!(self => self.items));
                assert(decreases_to!(self.items => self.items@[i as int]));
            }
            let e = self.items[i].clone();
            let ghost before = items@;
            items.push(e);
            proof {
                assert(views(items@) =~= views(before).push(e@));
                assert(views(self.items@).take(i + 1) =~= views(self.items@).take(i as int).push(e@));
            }
            i += 1;
        }
        let r = MagFolder { data: self.data.clone(), items };
        proof {
            assert(views(self.items@).take(i as int) =~= views(self.items@));
            assert(r@.items =~= views(r.items@));
            assert(self@.items =~= views(self.items@));
        }
        r
    }
}

impl Clone for MagEntry {
    fn clone(&self) -> (r: Self)
        ensures
            r@ == self@,
        decreases self,
    {
        match self {
            MagEntry::Dir(d) => MagEntry::Dir(d.clone()),
            MagEntry::File(f) => MagEntry::File(f.clone()),
        }
    }
}

impl ItemView {
    /// The path as the bytes of its UTF-8 encoding.
    pub open spec fn path_bytes(self) -> Seq<u8> {
        encode_utf8(self.path)
    }
}

impl EntryView {
    /// The path and metadata of the entry.
    pub open spec fn data(self) -> ItemView {
        match self {
            EntryView::Dir(d) => d.data,
            EntryView::File(f) => f.data,
        }
    }

    /// Directories come before files.
    pub open spec fn rank(self) -> int {
        match self {
            EntryView::Dir(_) => 0,
            EntryView::File(_) => 1,
        }
    }

    /// The children of a directory; a file has none.
    pub open spec fn children(self) -> Seq<EntryView> {
        match self {
            EntryView::Dir(d) => d.items,
            EntryView::File(_) => Seq::empty(),
        }
    }
}

/// The views of a sequence of entries.
pub open spec fn views(s: Seq<MagEntry>) -> Seq<EntryView> {
    s.map_values(|e: MagEntry| e@)
}

impl MagEntry {
    /// 0 for a directory, 1 for a file: the first key of a listing's order.
    pub fn variant_order(&self) -> (r: i32)
        ensures
            r == self@.rank(),
    {
        match self {
            MagEntry::Dir(_) => 0,
            MagEntry::File(_) => 1,
        }
    }

    pub fn get_path(&self) -> (r: &String)
        ensures
            r@ == self@.data().path,
    {
        match self {
            MagEntry::File(f) => &f.data.path,
            MagEntry::Dir(d) => &d.data.path,
        }
    }

    pub fn path(&self) -> (r: &str)
        ensures
            r@ == self@.data().path,
    {
        match self {
            MagEntry::Dir(folder) => folder.data.path.as_str(),
            MagEntry::File(file) => file.data.path.as_str(),
        }
    }

    pub fn is_file(&self) -> (r: bool)
        ensures
            r == self@ is File,
    {
        match self {
            MagEntry::Dir(_) => false,
            MagEntry::File(_) => true,
        }
    }

    pub fn is_folder(&self) -> (r: bool)
        ensures
            r == self@ is Dir,
    {
        match self {
            MagEntry::Dir(_) => true,
            MagEntry::File(_) => false,
        }
    }

    /// True of a directory without children; a file is never an empty
    /// directory.
    pub fn is_folder_empty(&self) -> (r: bool)
        ensures
            r == (self@ is Dir && self@.children().len() == 0),
    {
        match self {
            MagEntry::Dir(d) => d.items.len() == 0,
            MagEntry::File(_) => false,
        }
    }
}

/// Compares two entries in [`entry_le`] order.
fn entry_le_exec(a: &MagEntry, b: &MagEntry) -> (r: bool)
    ensures
        r == entry_le(a@, b@),
{
    let ra = a.variant_order();
    let rb = b.variant_order();
    if ra != rb {
        ra < rb
    } else {
        bytes_le_exec(a.path().as_bytes(), b.path().as_bytes())
    }
}

impl MagFolder {
    /// Orders the children: directories first, then by the bytes of the path.
    pub fn sort_entries(&mut self)
        ensures
            final(self)@.data == old(self)@.data,
            final(self)@.items == sort_spec(old(self)@.items),
    {
        let mut rest: Vec<MagEntry> = Vec::new();
        std::mem::swap(&mut self.items, &mut rest);
        let ghost orig = views(rest@);
        proof {
            assert(old(self)@.items =~= orig);
        }
        let mut sorted: Vec<MagEntry> = Vec::new();
        while rest.len() > 0
            invariant
                rest@.len() <= orig.len(),
                views(sorted@) == sort_spec(orig.take(orig.len() - rest@.len())),
                views(rest@) == orig.skip(orig.len() - rest@.len()),
            decreases rest@.len(),
        {
            let ghost k = orig.len() - rest@.len();
            let ghost rest0 = rest@;
            let e = rest.remove(0);
            proof {
                assert(views(rest0)[0] == rest0[0]@);
                assert(orig.skip(k)[0] == orig[k]);
                assert(views(rest@) =~= views(rest0).skip(1));
                assert(orig.take(k + 1).drop_last() =~= orig.take(k));
                assert(views(rest@) =~= orig.skip(k + 1));
                assert(e@ == orig[k]);
                lemma_sort_spec(orig.take(k));
            }
            let mut p: usize = sorted.len();
            while p > 0 && !entry_le_exec(&sorted[p - 1], &e)
                invariant
                    p <= sorted@.len(),
                    forall|j: int| p <= j < sorted@.len() ==> !entry_le(#[trigger] views(sorted@)[j], e@),
                decreases p,
            {
                p -= 1;
            }
            proof {
                lemma_insert_at(views(sorted@), e@, p as int);
            }
            let ghost before = sorted@;
            sorted.insert(p, e);
            proof {
                assert(views(sorted@) =~= views(before).insert(p as int, e@));
            }
        }
        proof {
            assert(orig.take(orig.len() as int) =~= orig);
        }
        self.items = sorted;
        proof {
            assert(self@.items =~= views(self.items@));
        }
    }
}

/// The entry that a listing makes of a child whose metadata lookup
/// succeeded: a file where the metadata says so, else a directory; in
/// either case not yet read.
pub open spec fn child_view(path: Seq<char>, m: ItemMeta) -> EntryView {
    let data = ItemView { path, metadata: Some(m) };
    if m.is_file {
        EntryView::File(FileView { data, content: Seq::empty() })
    } else {
        EntryView::Dir(FolderView { data, items: Seq::empty() })
    }
}

/// The entries that a read of a directory yields, in the order read: each
/// child whose metadata lookup failed is dropped.
pub open spec fn classify(l: Seq<DirChild>) -> Seq<EntryView>
    decreases l.len(),
{
    if l.len() == 0 {
        Seq::empty()
    } else {
        let rest = classify(l.drop_last());
        match l.last().metadata {
            Some(m) => rest.push(child_view(l.last().path@, m)),
            None => rest,
        }
    }
}

/// How many children have a metadata lookup that succeeded.
pub open spec fn count_with_metadata(l: Seq<DirChild>) -> nat
    decreases l.len(),
{
    if l.len() == 0 {
        0
    } else {
        count_with_metadata(l.drop_last()) + if l.last().metadata is Some {
            1nat
        } else {
            0nat
        }
    }
}

/// The children of a directory listing, as ordered for display; a read that
/// failed lists nothing.
pub open spec fn listing_spec(listing: Option<Vec<DirChild>>) -> Seq<EntryView> {
    match listing {
        Some(l) => sort_spec(classify(l@)),
        None => Seq::empty(),
    }
}

pub proof fn lemma_classify_len(l: Seq<DirChild>)
    ensures
        classify(l).len() == count_with_metadata(l),
    decreases l.len(),
{
    if l.len() > 0 {
        lemma_classify_len(l.drop_last());
    }
}

/// A listing has one child for each child whose metadata lookup succeeded.
pub proof fn lemma_listing_len(listing: Option<Vec<DirChild>>)
    ensures
        listing_spec(listing).len() == match listing {
            Some(l) => count_with_metadata(l@),
            None => 0,
        },
{
    if let Some(l) = listing {
        lemma_classify_len(l@);
        lemma_sort_spec(classify(l@));
    }
}

/// How many entries of `s` have the path `p`.
pub open spec fn count_path(s: Seq<EntryView>, p: Seq<char>) -> nat
    decreases s.len(),
{
    if s.len() == 0 {
        0
    } else {
        count_path(s.drop_last(), p) + if s.last().data().path == p {
            1nat
        } else {
            0nat
        }
    }
}

/// How many children have the path `p` and a metadata lookup that
/// succeeded.
pub open spec fn count_listed_path(l: Seq<DirChild>, p: Seq<char>) -> nat
    decreases l.len(),
{
    if l.len() == 0 {
        0
    } else {
        count_listed_path(l.drop_last(), p) + if l.last().metadata is Some && l.last().path@ == p {
            1nat
        } else {
            0nat
        }
    }
}

/// The paths of the children are pairwise distinct, as those of one
/// directory are.
pub open spec fn distinct_paths(l: Seq<DirChild>) -> bool {
    forall|i: int, j: int| 0 <= i < l.len() && 0 <= j < l.len() && i != j ==> #[trigger] l[i].path@ != #[trigger] l[j].path@
}

proof fn lemma_count_insert(s: Seq<EntryView>, e: EntryView, p: Seq<char>)
    ensures
        count_path(insert_sorted(s, e), p) == count_path(s, p) + if e.data().path == p {
            1nat
        } else {
            0nat
        },
    decreases s.len(),
{
    if s.len() == 0 {
        assert(seq![e].drop_last() =~= s);
    } else if entry_le(s.last(), e) {
        assert(s.push(e).drop_last() =~= s);
    } else {
        lemma_count_insert(s.drop_last(), e, p);
        let q = insert_sorted(s.drop_last(), e);
        assert(q.push(s.last()).drop_last() =~= q);
    }
}

proof fn lemma_count_sort(s: Seq<EntryView>, p: Seq<char>)
    ensures
        count_path(sort_spec(s), p) == count_path(s, p),
    decreases s.len(),
{
    if s.len() > 0 {
        lemma_count_sort(s.drop_last(), p);
        lemma_count_insert(sort_spec(s.drop_last()), s.last(), p);
    }
}

proof fn lemma_count_classify(l: Seq<DirChild>, p: Seq<char>)
    ensures
        count_path(classify(l), p) == count_listed_path(l, p),
    decreases l.len(),
{
    if l.len() > 0 {
        lemma_count_classify(l.drop_last(), p);
        let rest = classify(l.drop_last());
        if let Some(m) = l.last().metadata {
            assert(rest.push(child_view(l.last().path@, m)).drop_last() =~= rest);
        }
    }
}

proof fn lemma_count_listed_absent(l: Seq<DirChild>, p: Seq<char>)
    requires
        forall|k: int| 0 <= k < l.len() ==> (#[trigger] l[k]).path@ != p,
    ensures
        count_listed_path(l, p) == 0,
    decreases l.len(),
{
    if l.len() > 0 {
        lemma_count_listed_absent(l.drop_last(), p);
    }
}

proof fn lemma_count_listed_distinct(l: Seq<DirChild>, i: int)
    requires
        0 <= i < l.len(),
        distinct_paths(l),
    ensures
        count_listed_path(l, l[i].path@) == if l[i].metadata is Some {
            1nat
        } else {
            0nat
        },
    decreases l.len(),
{
    let t = l.drop_last();
    if i == l.len() - 1 {
        assert forall|k: int| 0 <= k < t.len() implies (#[trigger] t[k]).path@ != l[i].path@ by {
            assert(l[k] == t[k]);
        }
        lemma_count_listed_absent(t, l[i].path@);
    } else {
        assert(distinct_paths(t));
        assert(t[i] == l[i]);
        lemma_count_listed_distinct(t, i);
        assert(l.last() == l[l.len() - 1]);
    }
}

proof fn lemma_classify_members(l: Seq<DirChild>)
    ensures
        forall|e: EntryView|
            classify(l).contains(e) ==> exists|i: int|
                0 <= i < l.len() && (#[trigger] l[i]).metadata is Some && e == child_view(
                    l[i].path@,
                    l[i].metadata->0,
                ),
    decreases l.len(),
{
    if l.len() > 0 {
        let t = l.drop_last();
        lemma_classify_members(t);
        let rest = classify(t);
        assert forall|e: EntryView| classify(l).contains(e) implies exists|i: int|
            0 <= i < l.len() && (#[trigger] l[i]).metadata is Some && e == child_view(
                l[i].path@,
                l[i].metadata->0,
            ) by {
            let k = choose|k: int| 0 <= k < classify(l).len() && classify(l)[k] == e;
            if k < rest.len() {
                assert(classify(l)[k] == rest[k]);
                assert(rest.contains(e));
                let i = choose|i: int|
                    0 <= i < t.len() && (#[trigger] t[i]).metadata is Some && e == child_view(
                        t[i].path@,
                        t[i].metadata->0,
                    );
                assert(l[i] == t[i]);
            } else {
                assert(l[l.len() - 1] == l.last());
            }
        }
    }
}

/// A listing holds each child whose metadata lookup succeeded exactly once,
/// and nothing else: every listed entry is such a child, not read yet, a
/// file where its metadata says so and else a directory. A child whose
/// lookup failed is not listed.
pub proof fn lemma_listing_members(l: Seq<DirChild>)
    requires
        distinct_paths(l),
    ensures
        forall|i: int|
            0 <= i < l.len() ==> count_path(sort_spec(classify(l)), (#[trigger] l[i]).path@) == if l[i].metadata is Some {
                1nat
            } else {
                0nat
            },
        forall|e: EntryView|
            sort_spec(classify(l)).contains(e) ==> exists|i: int|
                0 <= i < l.len() && (#[trigger] l[i]).metadata is Some && e == child_view(
                    l[i].path@,
                    l[i].metadata->0,
                ),
{
    broadcast use vstd::seq_lib::group_to_multiset_ensures;

    assert forall|i: int| 0 <= i < l.len() implies count_path(sort_spec(classify(l)), (#[trigger] l[i]).path@) == if l[i].metadata is Some {
        1nat
    } else {
        0nat
    } by {
        lemma_count_sort(classify(l), l[i].path@);
        lemma_count_classify(l, l[i].path@);
        lemma_count_listed_distinct(l, i);
    }
    lemma_classify_members(l);
    lemma_sort_spec(classify(l));
    assert forall|e: EntryView| sort_spec(classify(l)).contains(e) implies exists|i: int|
        0 <= i < l.len() && (#[trigger] l[i]).metadata is Some && e == child_view(
            l[i].path@,
            l[i].metadata->0,
        ) by {
        assert(sort_spec(classify(l)).to_multiset().count(e) > 0);
        assert(classify(l).contains(e));
    }
}

impl MagItem {
    pub fn from(path: String, metadata: Option<ItemMeta>) -> (r: Self)
        ensures
            r@ == (ItemView { path: path@, metadata }),
    {
        Self { path, metadata }
    }
}

/// The entries of `l`, in the order read, without those whose metadata
/// lookup failed.
fn classify_exec(l: &Vec<DirChild>) -> (r: Vec<MagEntry>)
    ensures
        views(r@) == classify(l@),
{
    let mut v: Vec<MagEntry> = Vec::new();
    let mut i: usize = 0;
    while i < l.len()
        invariant
            i <= l@.len(),
            views(v@) == classify(l@.take(i as int)),
        decreases l@.len() - i,
    {
        let ghost before = v@;
        proof {
            assert(l@.take(i + 1).drop_last() =~= l@.take(i as int));
        }
        match l[i].metadata {
            Some(m) => {
                let data = MagItem::from(l[i].path.clone(), Some(m));
                if m.is_file {
                    v.push(MagEntry::File(MagFile::new(data)));
                } else {
                    v.push(MagEntry::Dir(MagFolder::new(data)));
                }
                proof {
                    assert(views(v@) =~= views(before).push(v@.last()@));
                }
            },
            None => {},
        }
        i += 1;
    }
    proof {
        assert(l@.take(i as int) =~= l@);
    }
    v
}

impl MagFile {
    /// A file entry that has not been read yet.
    pub fn new(data: MagItem) -> (r: Self)
        ensures
            r@ == (FileView { data: data@, content: Seq::empty() }),
    {
        Self { data, content: String::new() }
    }
}

impl MagFolder {
    /// A directory entry that has not been listed yet.
    pub fn new(data: MagItem) -> (r: Self)
        ensures
            r@ == (FolderView { data: data@, items: Seq::empty() }),
    {
        let r = Self { data, items: Vec::new() };
        proof {
            assert(r@.items =~= Seq::<EntryView>::empty());
        }
        r
    }

    /// Replaces the children with those of `listing`, the result of reading
    /// this directory (`None` where the read failed), classified and sorted.
    pub fn get_entries(&mut self, listing: Option<Vec<DirChild>>)
        ensures
            final(self)@.data == old(self)@.data,
            final(self)@.items == listing_spec(listing),
            final(self)@.items.len() == match listing {
                Some(l) => count_with_metadata(l@),
                None => 0,
            },
    {
        proof {
            lemma_listing_len(listing);
        }
        match listing {
            Some(l) => {
                self.items = classify_exec(&l);
                proof {
                    assert(self@.items =~= views(self.items@));
                }
                self.sort_entries();
            },
            None => {
                self.items = Vec::new();
                proof {
                    assert(self@.items =~= Seq::<EntryView>::empty());
                }
            },
        }
    }

    /// As [`MagFolder::get_entries`], and hands back a copy of the listed
    /// directory, or `None` where the read failed.
    pub fn get_entries_return(&mut self, listing: Option<Vec<DirChild>>) -> (r: Option<Self>)
        ensures
            final(self)@.data == old(self)@.data,
            final(self)@.items == listing_spec(listing),
            r is None <==> listing is None,
            r matches Some(d) ==> d@ == final(self)@,
    {
        let failed = listing.is_none();
        self.get_entries(listing);
        if failed {
            None
        } else {
            Some(self.clone())
        }
    }

    /// The entries of `listing`, the result of reading this directory,
    /// without those whose metadata lookup failed and in the order of a
    /// listing; `None` where the read failed. The directory itself is left as
    /// it is.
    pub fn return_entries(&self, listing: Option<Vec<DirChild>>) -> (r: Option<Vec<MagEntry>>)
        ensures
            r is None <==> listing is None,
            r matches Some(v) ==> listing is Some && views(v@) == listing_spec(listing),
    {
        match listing {
            Some(l) => {
                let mut d = MagFolder { data: self.data.clone(), items: classify_exec(&l) };
                proof {
                    assert(d@.items =~= views(d.items@));
                }
                d.sort_entries();
                proof {
                    assert(d@.items =~= views(d.items@));
                }
                Some(d.items)
            },
            None => None,
        }
    }
}

impl MagEntry {
    /// A copy of the directory, or `None` for a file.
    pub fn get_folder(&self) -> (r: Option<MagFolder>)
        ensures
            r is Some <==> self@ is Dir,
            r matches Some(d) ==> self@ == EntryView::Dir(d@),
    {
        match self {
            MagEntry::Dir(d) => Some(d.clone()),
            MagEntry::File(_) => None,
        }
    }

    /// A copy of the file, or `None` for a directory.
    pub fn get_file(&self) -> (r: Option<MagFile>)
        ensures
            r is Some <==> self@ is File,
            r matches Some(f) ==> self@ == EntryView::File(f@),
    {
        match self {
            MagEntry::File(f) => Some(f.clone()),
            MagEntry::Dir(_) => None,
        }
    }

    /// The path of the child at `idx` of a directory, or `None` for a file.
    pub fn get_folder_path(&self, idx: usize) -> (r: Option<String>)
        requires
            self@ is Dir ==> idx < self@.children().len(),
        ensures
            r is Some <==> self@ is Dir,
            r matches Some(p) ==> p@ == self@.children()[idx as int].data().path,
    {
        match self {
            MagEntry::Dir(d) => {
                proof {
                    assert(views(d.items@)[idx as int] == d.items@[idx as int]@);
                }
                Some(d.items[idx].get_path().clone())
            },
            MagEntry::File(_) => None,
        }
    }
}

/// The final component of a path, if it has one.
pub uninterp spec fn file_name_of(path: Seq<char>) -> Option<Seq<char>>;

/// Relies on `std::path::Path::file_name`: the final component of a path,
/// which depends on the path alone.
#[verifier::external_body]
fn path_file_name(path: &str) -> (r: Option<String>)
    ensures
        r is Some <==> file_name_of(path@) is Some,
        r matches Some(n) ==> n@ == file_name_of(path@)->0,
{
    match std::path::Path::new(path).file_name() {
        Some(n) => Some(n.to_string_lossy().into_owned()),
        None => None,
    }
}

impl MagItem {
    /// The final component of the path, or a marker where it has none.
    pub fn file_name(&self) -> (r: String)
        ensures
            r@ == match file_name_of(self.path@) {
                Some(n) => n,
                None => "CORRUPTED FILE NAME"@,
            },
    {
        match path_file_name(self.path.as_str()) {
            Some(s) => s,
            None => "CORRUPTED FILE NAME".to_owned(),
        }
    }
}

impl MagFile {
    /// A file entry whose snapshot comes from `read`, what reading the file
    /// returned: its first bytes, or the error's message.
    pub fn new_return(data: MagItem, read: Result<Vec<u8>, String>) -> (r: Self)
        ensures
            r@ == (FileView { data: data@, content: preview_text(read) }),
            reads_nothing(read) ==> r@.content.len() == 0,
    {
        let content = preview_exec(&read);
        Self { data, content }
    }

    /// Replaces the snapshot with the one that `read` gives.
    pub fn file_contents(&mut self, read: Result<Vec<u8>, String>)
        ensures
            final(self)@ == (FileView { data: old(self)@.data, content: preview_text(read) }),
            reads_nothing(read) ==> final(self)@.content.len() == 0,
    {
        self.content = preview_exec(&read);
    }

    /// Where the read succeeded, replaces the snapshot as
    /// [`MagFile::file_contents`] does and hands back a copy; where it failed,
    /// changes nothing and returns `None`.
    pub fn file_contents_return(&mut self, read: Result<Vec<u8>, String>) -> (r: Option<Self>)
        ensures
            read is Err ==> r is None && final(self)@ == old(self)@,
            read is Ok ==> final(self)@ == (FileView {
                data: old(self)@.data,
                content: preview_text(read),
            }) && (r matches Some(f) && f@ == final(self)@),
            reads_nothing(read) ==> final(self)@.content.len() == 0,
    {
        if read.is_err() {
            return None;
        }
        self.content = preview_exec(&read);
        Some(self.clone())
    }
}

/// What the caller read for an entry: a directory's children (`None` where
/// the read failed), or what reading a file returned.
#[derive(Debug)]
pub enum Fetched {
    Listing(Option<Vec<DirChild>>),
    Contents(Result<Vec<u8>, String>),
}

/// The entry for `data` that a read gives: a listed directory, or a file
/// with its snapshot.
pub open spec fn fetched_view(data: ItemView, fetched: Fetched) -> EntryView {
    match fetched {
        Fetched::Listing(l) => EntryView::Dir(FolderView { data, items: listing_spec(l) }),
        Fetched::Contents(r) => EntryView::File(FileView { data, content: preview_text(r) }),
    }
}

impl MagEntry {
    /// The entry for `data` built from what was read for it.
    pub fn from_fetch(data: MagItem, fetched: Fetched) -> (r: Self)
        ensures
            r@ == fetched_view(data@, fetched),
            fetched matches Fetched::Contents(c) && reads_nothing(c) ==> r@ is File
                && r@->File_0.content.len() == 0,
    {
        match fetched {
            Fetched::Listing(l) => {
                let mut d = MagFolder::new(data);
                d.get_entries(l);
                MagEntry::Dir(d)
            },
            Fetched::Contents(c) => MagEntry::File(MagFile::new_return(data, c)),
        }
    }

    /// A copy of the path and metadata of this entry.
    pub fn item(&self) -> (r: MagItem)
        ensures
            r@ == self@.data(),
    {
        match self {
            MagEntry::Dir(d) => d.data.clone(),
            MagEntry::File(f) => f.data.clone(),
        }
    }
}

} // verus!
