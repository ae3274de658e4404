//! The snapshot of a file that a preview shows: its first bytes, decoded as
//! text, or the error that stopped the read.

use vstd::prelude::*;
use vstd::string::StringExecFns;

verus! {

/// How many bytes of a file a preview reads.
pub const FILE_READ_BYTES: usize = 250;

/// The text that a lossy UTF-8 decoding makes of some bytes: each invalid
/// sequence becomes a replacement character.
pub uninterp spec fn lossy_utf8(b: Seq<u8>) -> Seq<char>;

/// Relies on `String::from_utf8_lossy`: the text depends on the bytes alone,
/// and no bytes give no text.
#[verifier::external_body]
fn decode_lossy(b: &[u8]) -> (r: String)
    ensures
        r@ == lossy_utf8(b@),
        b@.len() == 0 ==> r@.len() == 0,
{
    String::from_utf8_lossy(b).into_owned()
}

/// `b` without its trailing NUL bytes.
pub open spec fn trim_nul(b: Seq<u8>) -> Seq<u8>
    decreases b.len(),
{
    if b.len() > 0 && b.last() == 0 {
        trim_nul(b.drop_last())
    } else {
        b
    }
}

/// The bytes of a file that its snapshot shows: the first
/// [`FILE_READ_BYTES`] at most, without trailing NUL padding.
pub open spec fn snapshot_bytes(b: Seq<u8>) -> Seq<u8> {
    if b.len() <= FILE_READ_BYTES {
        trim_nul(b)
    } else {
        trim_nul(b.take(FILE_READ_BYTES as int))
    }
}

/// The snapshot of a file, given what reading it returned: its first bytes
/// decoded, or the message of the error.
pub open spec fn preview_text(read: Result<Vec<u8>, String>) -> Seq<char> {
    match read {
        Ok(b) => lossy_utf8(snapshot_bytes(b@)),
        Err(e) => "can't open file "@ + e@,
    }
}

proof fn lemma_trim_nul_at(b: Seq<u8>, n: int)
    requires
        0 <= n <= b.len(),
        forall|j: int| n <= j < b.len() ==> b[j] == 0,
        n > 0 ==> b[n - 1] != 0,
    ensures
        trim_nul(b) == b.take(n),
    decreases b.len(),
{
    if b.len() > n {
        lemma_trim_nul_at(b.drop_last(), n);
        assert(b.drop_last().take(n) =~= b.take(n));
    } else {
        assert(b.take(n) =~= b);
    }
}

/// The length of [`snapshot_bytes`] of `b`, a prefix of `b`.
fn snapshot_len(b: &Vec<u8>) -> (n: usize)
    ensures
        n <= b@.len(),
        b@.take(n as int) == snapshot_bytes(b@),
{
    let mut n: usize = if b.len() <= FILE_READ_BYTES {
        b.len()
    } else {
        FILE_READ_BYTES
    };
    let ghost t = if b@.len() <= FILE_READ_BYTES {
        b@
    } else {
        b@.take(FILE_READ_BYTES as int)
    };
    while n > 0 && b[n - 1] == 0
        invariant
            n <= t.len(),
            t.len() <= b@.len(),
            t =~= b@.take(t.len() as int),
            forall|j: int| n <= j < t.len() ==> t[j] == 0,
        decreases n,
    {
        n -= 1;
    }
    proof {
        lemma_trim_nul_at(t, n as int);
        assert(t.take(n as int) =~= b@.take(n as int));
    }
    n
}

/// The read succeeded and left nothing to show: the file is empty, or holds
/// only NUL bytes within what a preview reads.
pub open spec fn reads_nothing(read: Result<Vec<u8>, String>) -> bool {
    read matches Ok(b) && snapshot_bytes(b@).len() == 0
}

/// The snapshot text of a file, given what reading it returned.
pub(crate) fn preview_exec(read: &Result<Vec<u8>, String>) -> (r: String)
    ensures
        r@ == preview_text(*read),
        reads_nothing(*read) ==> r@.len() == 0,
{
    match read {
        Ok(b) => {
            let n = snapshot_len(b);
            let shown = &b.as_slice()[0..n];
            decode_lossy(shown)
        },
        Err(e) => {
            let mut m = "can't open file ".to_owned();
            m.append(e.as_str());
            m
        },
    }
}

} // verus!
