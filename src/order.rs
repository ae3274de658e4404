//! The order in which a directory listing is shown: directories first, then
//! by the bytes of the path; a stable insertion sort and its laws.

use vstd::prelude::*;

use crate::filesys::EntryView;

verus! {

/// Byte-wise lexicographic order: `a` is a prefix of `b`, or `a` has the
/// smaller byte at the first place where they differ.
pub open spec fn bytes_le(a: Seq<u8>, b: Seq<u8>) -> bool
    decreases a.len(),
{
    if a.len() == 0 {
        true
    } else if b.len() == 0 {
        false
    } else if a[0] != b[0] {
        a[0] < b[0]
    } else {
        bytes_le(a.drop_first(), b.drop_first())
    }
}

/// The order of a listing: directories before files, then by the bytes of
/// the path.
pub open spec fn entry_le(a: EntryView, b: EntryView) -> bool {
    ||| a.rank() < b.rank()
    ||| a.rank() == b.rank() && bytes_le(a.data().path_bytes(), b.data().path_bytes())
}

/// Puts `e` after the last element of `s` that is not above it.
pub open spec fn insert_sorted(s: Seq<EntryView>, e: EntryView) -> Seq<EntryView>
    decreases s.len(),
{
    if s.len() == 0 {
        seq![e]
    } else if entry_le(s.last(), e) {
        s.push(e)
    } else {
        insert_sorted(s.drop_last(), e).push(s.last())
    }
}

/// A stable insertion sort by [`entry_le`].
pub open spec fn sort_spec(s: Seq<EntryView>) -> Seq<EntryView>
    decreases s.len(),
{
    if s.len() == 0 {
        s
    } else {
        insert_sorted(sort_spec(s.drop_last()), s.last())
    }
}

pub open spec fn is_sorted(s: Seq<EntryView>) -> bool {
    forall|i: int, j: int| 0 <= i < j < s.len() ==> entry_le(#[trigger] s[i], #[trigger] s[j])
}

/// No file comes before a directory.
pub open spec fn dirs_first(s: Seq<EntryView>) -> bool {
    forall|i: int, j: int|
        0 <= i < j < s.len() && (#[trigger] s[j]) is Dir ==> (#[trigger] s[i]) is Dir
}

pub proof fn lemma_bytes_le_total(a: Seq<u8>, b: Seq<u8>)
    ensures
        bytes_le(a, b) || bytes_le(b, a),
    decreases a.len(),
{
    if a.len() > 0 && b.len() > 0 && a[0] == b[0] {
        lemma_bytes_le_total(a.drop_first(), b.drop_first());
    }
}

pub proof fn lemma_bytes_le_trans(a: Seq<u8>, b: Seq<u8>, c: Seq<u8>)
    requires
        bytes_le(a, b),
        bytes_le(b, c),
    ensures
        bytes_le(a, c),
    decreases a.len(),
{
    if a.len() > 0 && b.len() > 0 && c.len() > 0 && a[0] == b[0] && b[0] == c[0] {
        lemma_bytes_le_trans(a.drop_first(), b.drop_first(), c.drop_first());
    }
}

pub proof fn lemma_entry_le_total(a: EntryView, b: EntryView)
    ensures
        entry_le(a, b) || entry_le(b, a),
{
    lemma_bytes_le_total(a.data().path_bytes(), b.data().path_bytes());
}

pub proof fn lemma_entry_le_trans(a: EntryView, b: EntryView, c: EntryView)
    requires
        entry_le(a, b),
        entry_le(b, c),
    ensures
        entry_le(a, c),
{
    if a.rank() == b.rank() && b.rank() == c.rank() {
        lemma_bytes_le_trans(a.data().path_bytes(), b.data().path_bytes(), c.data().path_bytes());
    }
}

/// Inserting keeps a sorted sequence sorted, and adds exactly `e`.
pub proof fn lemma_insert_sorted(s: Seq<EntryView>, e: EntryView)
    requires
        is_sorted(s),
    ensures
        is_sorted(insert_sorted(s, e)),
        insert_sorted(s, e).to_multiset() =~= s.to_multiset().insert(e),
        insert_sorted(s, e).len() == s.len() + 1,
    decreases s.len(),
{
    broadcast use vstd::seq_lib::group_to_multiset_ensures;

    if s.len() == 0 {
        assert(seq![e] =~= Seq::<EntryView>::empty().push(e));
    } else if entry_le(s.last(), e) {
        let r = s.push(e);
        assert forall|i: int, j: int| 0 <= i < j < r.len() implies entry_le(#[trigger] r[i], #[trigger] r[j]) by {
            if j == s.len() {
                if i < s.len() - 1 {
                    lemma_entry_le_trans(s[i], s.last(), e);
                }
            }
        }
    } else {
        let t = s.drop_last();
        assert(is_sorted(t));
        lemma_insert_sorted(t, e);
        let q = insert_sorted(t, e);
        let r = q.push(s.last());
        lemma_entry_le_total(s.last(), e);
        assert(s =~= t.push(s.last()));
        assert forall|x: EntryView| q.contains(x) implies entry_le(x, s.last()) by {
            assert(q.to_multiset().count(x) > 0);
            if x != e {
                assert(t.to_multiset().count(x) > 0);
                let k = choose|k: int| 0 <= k < t.len() && t[k] == x;
                assert(s[k] == x);
            }
        }
        assert forall|i: int, j: int| 0 <= i < j < r.len() implies entry_le(#[trigger] r[i], #[trigger] r[j]) by {
            if j == q.len() {
                assert(q.contains(q[i]));
            }
        }
    }
}

pub proof fn lemma_sort_spec(s: Seq<EntryView>)
    ensures
        is_sorted(sort_spec(s)),
        sort_spec(s).to_multiset() =~= s.to_multiset(),
        sort_spec(s).len() == s.len(),
    decreases s.len(),
{
    broadcast use vstd::seq_lib::group_to_multiset_ensures;

    if s.len() > 0 {
        lemma_sort_spec(s.drop_last());
        lemma_insert_sorted(sort_spec(s.drop_last()), s.last());
        assert(s =~= s.drop_last().push(s.last()));
    }
}

/// Sorting a sorted sequence changes nothing.
pub proof fn lemma_sort_sorted(s: Seq<EntryView>)
    requires
        is_sorted(s),
    ensures
        sort_spec(s) == s,
    decreases s.len(),
{
    if s.len() > 0 {
        let t = s.drop_last();
        assert(is_sorted(t));
        lemma_sort_sorted(t);
        if t.len() > 0 {
            assert(entry_le(t.last(), s.last()));
        }
        assert(s =~= t.push(s.last()));
        if t.len() == 0 {
            assert(seq![s.last()] =~= s);
        }
    }
}

/// Sorting a listing is idempotent, and the sorted listing has every
/// directory before every file.
pub proof fn lemma_sort_idempotent(s: Seq<EntryView>)
    ensures
        sort_spec(sort_spec(s)) == sort_spec(s),
        dirs_first(sort_spec(s)),
        sort_spec(s).to_multiset() == s.to_multiset(),
{
    lemma_sort_spec(s);
    lemma_sort_sorted(sort_spec(s));
    let r = sort_spec(s);
    assert forall|i: int, j: int| 0 <= i < j < r.len() && (#[trigger] r[j]) is Dir implies (#[trigger] r[i]) is Dir by {
        assert(entry_le(r[i], r[j]));
    }
}

/// Where `a` and `b` agree on their first `i` bytes, their order is that of
/// what follows.
proof fn lemma_bytes_le_skip(a: Seq<u8>, b: Seq<u8>, i: int)
    requires
        0 <= i < a.len(),
        i < b.len(),
        a[i] == b[i],
    ensures
        bytes_le(a.skip(i), b.skip(i)) == bytes_le(a.skip(i + 1), b.skip(i + 1)),
{
    assert(a.skip(i).drop_first() =~= a.skip(i + 1));
    assert(b.skip(i).drop_first() =~= b.skip(i + 1));
}

/// Compares two byte strings in [`bytes_le`] order.
pub(crate) fn bytes_le_exec(a: &[u8], b: &[u8]) -> (r: bool)
    ensures
        r == bytes_le(a@, b@),
{
    let mut i: usize = 0;
    assert(a@.skip(0) =~= a@ && b@.skip(0) =~= b@);
    while i < a.len() && i < b.len() && a[i] == b[i]
        invariant
            i <= a@.len(),
            i <= b@.len(),
            bytes_le(a@, b@) == bytes_le(a@.skip(i as int), b@.skip(i as int)),
        decreases a@.len() - i,
    {
        proof {
            lemma_bytes_le_skip(a@, b@, i as int);
        }
        i += 1;
    }
    if i == a.len() {
        true
    } else if i == b.len() {
        false
    } else {
        assert(a@.skip(i as int)[0] == a@[i as int]);
        assert(b@.skip(i as int)[0] == b@[i as int]);
        a[i] < b[i]
    }
}

/// The position at which [`insert_sorted`] puts `e` into `s`.
pub(crate) proof fn lemma_insert_at(s: Seq<EntryView>, e: EntryView, p: int)
    requires
        0 <= p <= s.len(),
        forall|j: int| p <= j < s.len() ==> !entry_le(#[trigger] s[j], e),
        p > 0 ==> entry_le(s[p - 1], e),
    ensures
        insert_sorted(s, e) == s.insert(p, e),
    decreases s.len(),
{
    if s.len() == 0 {
        assert(s.insert(p, e) =~= seq![e]);
    } else if p == s.len() {
        assert(s.insert(p, e) =~= s.push(e));
    } else {
        lemma_insert_at(s.drop_last(), e, p);
        assert(s.drop_last().insert(p, e).push(s.last()) =~= s.insert(p, e));
    }
}

} // verus!
