//! Bookkeeping for streamed snapshots: which chunks of a resumable upload
//! are still missing, how many chunks a snapshot file is cut into, and the
//! metadata recorded for it.
use crate::text::{hex, hex_string};
use std::time::SystemTime;
use vstd::prelude::*;

verus! {

/// Wall-clock time, as the standard library gives it.
#[verifier::external_type_specification]
#[verifier::external_body]
pub struct ExSystemTime(SystemTime);

/// The chunks below `n` that are not among `uploaded`, in increasing order.
pub open spec fn remaining_below(n: int, uploaded: Seq<usize>) -> Seq<usize>
    decreases n,
{
    if n <= 0 {
        Seq::empty()
    } else if uploaded.contains((n - 1) as usize) {
        remaining_below(n - 1, uploaded)
    } else {
        remaining_below(n - 1, uploaded).push((n - 1) as usize)
    }
}

/// What a resumable upload holds.
pub struct UploadState {
    pub snapshot_id: Seq<char>,
    pub uploaded: Seq<usize>,
    pub total_chunks: usize,
}

/// Progress of an upload of a snapshot cut into chunks, which can resume
/// after an interruption.
pub struct ResumableUpload {
    snapshot_id: String,
    uploaded_chunks: Vec<usize>,
    total_chunks: usize,
}

impl View for ResumableUpload {
    type V = UploadState;

    closed spec fn view(&self) -> UploadState {
        UploadState {
            snapshot_id: self.snapshot_id@,
            uploaded: self.uploaded_chunks@,
            total_chunks: self.total_chunks,
        }
    }
}

impl ResumableUpload {
    /// An upload of `total_chunks` chunks with none uploaded yet.
    pub fn new(snapshot_id: String, total_chunks: usize) -> (u: Self)
        ensures
            u@.snapshot_id == snapshot_id@,
            u@.uploaded == Seq::<usize>::empty(),
            u@.total_chunks == total_chunks,
    {
        ResumableUpload { snapshot_id, uploaded_chunks: Vec::new(), total_chunks }
    }

    /// Notes that a chunk was uploaded.
    pub fn mark_chunk_uploaded(&mut self, chunk_index: usize)
        ensures
            final(self)@ == (UploadState {
                uploaded: old(self)@.uploaded.push(chunk_index),
                ..old(self)@
            }),
    {
        self.uploaded_chunks.push(chunk_index);
    }

    /// The chunks not uploaded yet, in increasing order.
    pub fn get_remaining_chunks(&self) -> (r: Vec<usize>)
        ensures
            r@ == remaining_below(self@.total_chunks as int, self@.uploaded),
    {
        let mut r: Vec<usize> = Vec::new();
        let mut i: usize = 0;
        while i < self.total_chunks
            invariant
                i <= self.total_chunks,
                r@ == remaining_below(i as int, self.uploaded_chunks@),
            decreases self.total_chunks - i,
        {
            if !contains_chunk(&self.uploaded_chunks, i) {
                r.push(i);
            }
            i = i + 1;
        }
        r
    }

    /// Whether as many chunks were uploaded as the snapshot has.
    pub fn is_complete(&self) -> (b: bool)
        ensures
            b == (self@.uploaded.len() == self@.total_chunks),
    {
        self.uploaded_chunks.len() == self.total_chunks
    }

    /// Number of chunks noted as uploaded.
    pub fn uploaded_count(&self) -> (n: usize)
        ensures
            n == self@.uploaded.len(),
    {
        self.uploaded_chunks.len()
    }

    /// Number of chunks the snapshot has.
    pub fn total_chunks(&self) -> (n: usize)
        ensures
            n == self@.total_chunks,
    {
        self.total_chunks
    }
}

/// Whether `chunk` is among `chunks`.
fn contains_chunk(chunks: &Vec<usize>, chunk: usize) -> (b: bool)
    ensures
        b == chunks@.contains(chunk),
{
    let mut i: usize = 0;
    while i < chunks.len()
        invariant
            i <= chunks.len(),
            forall|j: int| 0 <= j < i ==> chunks@[j] != chunk,
        decreases chunks.len() - i,
    {
        if chunks[i] == chunk {
            return true;
        }
        i = i + 1;
    }
    false
}

/// A chunk is missing exactly when it is below the total and not uploaded.
pub proof fn lemma_remaining_exactly_missing(n: int, uploaded: Seq<usize>, c: usize)
    requires
        n <= usize::MAX + 1,
    ensures
        remaining_below(n, uploaded).contains(c) <==> (c < n && !uploaded.contains(c)),
    decreases n,
{
    if n > 0 {
        lemma_remaining_exactly_missing(n - 1, uploaded, c);
        let prev = remaining_below(n - 1, uploaded);
        if !uploaded.contains((n - 1) as usize) {
            if c == n - 1 {
                assert(prev.push(c)[prev.len() as int] == c);
            }
            let next = prev.push((n - 1) as usize);
            if next.contains(c) && c != n - 1 {
                let k = choose|k: int| 0 <= k < next.len() && next[k] == c;
                assert(prev[k] == c);
            }
            if prev.contains(c) {
                let k = choose|k: int| 0 <= k < prev.len() && prev[k] == c;
                assert(prev.push((n - 1) as usize)[k] == c);
            }
        }
    }
}

/// Noting one more chunk as uploaded shortens what remains by one exactly
/// when that chunk is below the total and was not noted before.
proof fn lemma_remaining_push(n: int, uploaded: Seq<usize>, x: usize)
    requires
        n <= usize::MAX + 1,
    ensures
        remaining_below(n, uploaded.push(x)).len() == remaining_below(n, uploaded).len() - if x < n
            && !uploaded.contains(x) {
            1int
        } else {
            0int
        },
    decreases n,
{
    if n > 0 {
        let m = n - 1;
        lemma_remaining_push(m, uploaded, x);
        let v = uploaded.push(x);
        assert(v.contains((n - 1) as usize) <==> (uploaded.contains((n - 1) as usize) || x == n - 1))
            by {
            if v.contains((n - 1) as usize) && x != n - 1 {
                let k = choose|k: int| 0 <= k < v.len() && v[k] == (n - 1) as usize;
                assert(uploaded[k] == (n - 1) as usize);
            }
            if uploaded.contains((n - 1) as usize) {
                let k = choose|k: int| 0 <= k < uploaded.len() && uploaded[k] == (n - 1) as usize;
                assert(v[k] == (n - 1) as usize);
            }
            if x == n - 1 {
                assert(v[uploaded.len() as int] == x);
            }
        }
    }
}

/// With nothing uploaded, every chunk below `n` remains.
proof fn lemma_remaining_of_none(n: int)
    requires
        n >= 0,
    ensures
        remaining_below(n, Seq::<usize>::empty()).len() == n,
    decreases n,
{
    if n > 0 {
        lemma_remaining_of_none(n - 1);
    }
}

/// When the uploaded chunks are distinct and below the total, exactly
/// `total - uploaded` chunks remain.
pub proof fn lemma_remaining_count(n: int, uploaded: Seq<usize>)
    requires
        0 <= n <= usize::MAX + 1,
        uploaded.no_duplicates(),
        forall|k: int| 0 <= k < uploaded.len() ==> #[trigger] uploaded[k] < n,
    ensures
        remaining_below(n, uploaded).len() == n - uploaded.len(),
    decreases uploaded.len(),
{
    if uploaded.len() == 0 {
        assert(uploaded =~= Seq::<usize>::empty());
        lemma_remaining_of_none(n);
    } else {
        let w = uploaded.drop_last();
        let x = uploaded.last();
        assert(w.push(x) =~= uploaded);
        assert forall|k: int| 0 <= k < w.len() implies #[trigger] w[k] < n by {
            assert(w[k] == uploaded[k]);
        }
        assert(w.no_duplicates()) by {
            assert forall|i: int, j: int| 0 <= i < w.len() && 0 <= j < w.len() && i != j implies w[i]
                != w[j] by {
                assert(w[i] == uploaded[i] && w[j] == uploaded[j]);
            }
        }
        assert(!w.contains(x)) by {
            if w.contains(x) {
                let k = choose|k: int| 0 <= k < w.len() && w[k] == x;
                assert(uploaded[k] == uploaded[uploaded.len() - 1]);
            }
        }
        lemma_remaining_count(n, w);
        lemma_remaining_push(n, w, x);
    }
}

/// An upload whose noted chunks are distinct chunks of the snapshot is
/// complete exactly when no chunk remains.
pub proof fn lemma_complete_iff_nothing_remains(u: UploadState)
    requires
        u.uploaded.no_duplicates(),
        forall|k: int| 0 <= k < u.uploaded.len() ==> #[trigger] u.uploaded[k] < u.total_chunks,
    ensures
        (u.uploaded.len() == u.total_chunks) <==> remaining_below(u.total_chunks as int, u.uploaded).len() == 0,
{
    lemma_remaining_count(u.total_chunks as int, u.uploaded);
}

/// The remaining chunks are in strictly increasing order and all below the
/// total, so none is listed twice.
pub proof fn lemma_remaining_sorted(n: int, uploaded: Seq<usize>)
    requires
        n <= usize::MAX + 1,
    ensures
        forall|k: int|
            0 <= k < remaining_below(n, uploaded).len() ==> #[trigger] remaining_below(n, uploaded)[k]
                < n,
        forall|i: int, j: int|
            0 <= i < j < remaining_below(n, uploaded).len() ==> #[trigger] remaining_below(
                n,
                uploaded,
            )[i] < #[trigger] remaining_below(n, uploaded)[j],
    decreases n,
{
    if n > 0 {
        lemma_remaining_sorted(n - 1, uploaded);
        let prev = remaining_below(n - 1, uploaded);
        let r = remaining_below(n, uploaded);
        if !uploaded.contains((n - 1) as usize) {
            assert(r == prev.push((n - 1) as usize));
            assert forall|k: int| 0 <= k < r.len() implies #[trigger] r[k] < n by {
                if k < prev.len() {
                    assert(r[k] == prev[k]);
                }
            }
            assert forall|i: int, j: int| 0 <= i < j < r.len() implies #[trigger] r[i] < #[trigger] r[j] by {
                assert(r[i] == prev[i]);
                if j < prev.len() {
                    assert(r[j] == prev[j]);
                }
            }
        }
    }
}

/// Before any chunk is noted, every chunk from 0 to the total remains, in
/// order.
pub proof fn lemma_remaining_when_fresh(n: int)
    requires
        0 <= n <= usize::MAX + 1,
    ensures
        remaining_below(n, Seq::<usize>::empty()) == Seq::new(n as nat, |i: int| i as usize),
    decreases n,
{
    if n > 0 {
        lemma_remaining_when_fresh(n - 1);
        assert(remaining_below(n, Seq::<usize>::empty()) =~= Seq::new(n as nat, |i: int| i as usize));
    } else {
        assert(remaining_below(n, Seq::<usize>::empty()) =~= Seq::new(n as nat, |i: int| i as usize));
    }
}

/// What remains depends only on which chunks were noted, not on how often
/// or in what order: two lists that hold the same chunks leave the same
/// chunks remaining.
pub proof fn lemma_remaining_depends_on_marked_set(n: int, u1: Seq<usize>, u2: Seq<usize>)
    requires
        forall|c: usize| #[trigger] u1.contains(c) == u2.contains(c),
    ensures
        remaining_below(n, u1) == remaining_below(n, u2),
    decreases n,
{
    if n > 0 {
        lemma_remaining_depends_on_marked_set(n - 1, u1, u2);
        assert(u1.contains((n - 1) as usize) == u2.contains((n - 1) as usize));
    }
}

/// Noting a chunk a second time changes nothing that remains.
pub proof fn lemma_marking_twice_is_marking_once(n: int, uploaded: Seq<usize>, x: usize)
    ensures
        remaining_below(n, uploaded.push(x).push(x)) == remaining_below(n, uploaded.push(x)),
{
    let once = uploaded.push(x);
    let twice = once.push(x);
    assert forall|c: usize| #[trigger] twice.contains(c) == once.contains(c) by {
        if twice.contains(c) {
            let k = choose|k: int| 0 <= k < twice.len() && twice[k] == c;
            if k == once.len() {
                assert(once[once.len() - 1] == c);
            } else {
                assert(once[k] == c);
            }
        }
        if once.contains(c) {
            let k = choose|k: int| 0 <= k < once.len() && once[k] == c;
            assert(twice[k] == c);
        }
    }
    lemma_remaining_depends_on_marked_set(n, twice, once);
}

/// Facts about a snapshot file being streamed.
#[derive(Debug)]
pub struct SnapshotMetadata {
    pub total_size: u64,
    pub chunk_size: usize,
    pub checksum: String,
    pub created_at: SystemTime,
}

/// Cuts snapshot files into chunks of a fixed size for streaming.
pub struct StreamingSnapshotManager {
    chunk_size: usize,
}

impl StreamingSnapshotManager {
    pub fn new(chunk_size: usize) -> (m: Self)
        ensures
            m.spec_chunk_size() == chunk_size,
    {
        StreamingSnapshotManager { chunk_size }
    }

    pub closed spec fn spec_chunk_size(&self) -> usize {
        self.chunk_size
    }

    /// Bytes per chunk.
    #[verifier::when_used_as_spec(spec_chunk_size)]
    pub fn chunk_size(&self) -> (n: usize)
        ensures
            n == self.spec_chunk_size(),
    {
        self.chunk_size
    }

    /// Number of chunks a file of `total_size` bytes is cut into: the size
    /// divided by the chunk size, rounded up.
    pub fn chunk_count(&self, total_size: u64) -> (n: u64)
        requires
            self.spec_chunk_size() > 0,
            total_size + self.spec_chunk_size() <= u64::MAX,
        ensures
            n == (total_size + self.spec_chunk_size() - 1) / (self.spec_chunk_size() as int),
            n * self.spec_chunk_size() >= total_size,
            n == 0 || (n - 1) * self.spec_chunk_size() < total_size,
    {
        let cs = self.chunk_size as u64;
        let n = (total_size + cs - 1) / cs;
        proof {
            let c = cs as int;
            let t = total_size as int;
            assert(n * c >= t && (n == 0 || (n - 1) * c < t)) by (nonlinear_arith)
                requires
                    c > 0,
                    n == (t + c - 1) / c,
                    t >= 0,
            ;
        }
        n
    }

    /// The metadata of a snapshot file of `total_size` bytes last changed at
    /// `created_at`: its size, the chunk size, and as checksum the size in
    /// lowercase hexadecimal.
    pub fn metadata_for(&self, total_size: u64, created_at: SystemTime) -> (m: SnapshotMetadata)
        ensures
            m.total_size == total_size,
            m.chunk_size == self.spec_chunk_size(),
            m.checksum@ == hex(total_size as nat),
            m.created_at == created_at,
    {
        SnapshotMetadata {
            total_size,
            chunk_size: self.chunk_size,
            checksum: hex_string(total_size),
            created_at,
        }
    }
}

} // verus!
