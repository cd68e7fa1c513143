use vstd::prelude::*;
use vstd::pervasive::VecAdditionalExecFns;

use crate::digest::{spec_digest, FileDriver};
use crate::errors::UploadError;

verus! {

/// One upload session: the chunks received so far, keyed by their 0-based
/// sequence index, and an exclusive assembly claim.
///
/// The session tracks received indices explicitly, so completeness is decided
/// from this state and never by re-scanning any storage. The claim flag
/// serializes the assembly trigger: of two concurrent requests that both
/// believe they hold the final chunk, exactly one wins the claim.
pub struct UploadSession {
    id: String,
    chunks: Vec<Option<Vec<u8>>>,
    claimed: bool,
}

/// The chunk map after storing `data` at `index`: the map grows to cover
/// `index` if needed, `index` itself is overwritten, everything else is kept.
pub open spec fn spec_store(
    pre: Seq<Option<Seq<u8>>>,
    index: int,
    data: Seq<u8>,
) -> Seq<Option<Seq<u8>>> {
    Seq::new(
        if index + 1 > pre.len() {
            (index + 1) as nat
        } else {
            pre.len()
        },
        |j: int|
            if j == index {
                Some(data)
            } else if j < pre.len() {
                pre[j]
            } else {
                None
            },
    )
}

/// A chunk is stored at index `j`.
pub open spec fn spec_present(chunks: Seq<Option<Seq<u8>>>, j: int) -> bool {
    0 <= j < chunks.len() && chunks[j] is Some
}

/// Every index in `0..total` holds a chunk.
pub open spec fn spec_complete(chunks: Seq<Option<Seq<u8>>>, total: int) -> bool {
    forall|j: int| 0 <= j < total ==> spec_present(chunks, j)
}

/// The stored index set equals `{0, .., total - 1}` exactly: every index in
/// `0..total` holds a chunk, and no index at or beyond `total` does.
pub open spec fn spec_received_exactly(chunks: Seq<Option<Seq<u8>>>, total: int) -> bool {
    &&& spec_complete(chunks, total)
    &&& forall|j: int| j >= total ==> !spec_present(chunks, j)
}

/// The payloads of the first `total` chunks, in index order.
pub open spec fn spec_parts(chunks: Seq<Option<Seq<u8>>>, total: int) -> Seq<Seq<u8>>
    recommends
        spec_complete(chunks, total),
{
    Seq::new(total as nat, |j: int| chunks[j]->0)
}

/// The reassembled artifact: the concatenation of the first `total` chunk
/// payloads in strict index order.
pub open spec fn spec_assembled(chunks: Seq<Option<Seq<u8>>>, total: int) -> Seq<u8>
    recommends
        spec_complete(chunks, total),
{
    spec_parts(chunks, total).flatten()
}

/// The chunk map reached by writing `parts[0]`, .., `parts[len-1]` in index
/// order into a fresh session.
pub open spec fn spec_store_all(parts: Seq<Seq<u8>>) -> Seq<Option<Seq<u8>>>
    decreases parts.len(),
{
    if parts.len() == 0 {
        Seq::empty()
    } else {
        spec_store(spec_store_all(parts.drop_last()), parts.len() - 1, parts.last())
    }
}

/// Append the bytes of `piece` to `out`.
fn push_all(out: &mut Vec<u8>, piece: &Vec<u8>)
    ensures
        final(out)@ == old(out)@ + piece@,
{
    let n = piece.len();
    let mut i: usize = 0;
    while i < n
        invariant
            0 <= i <= n,
            n == piece@.len(),
            out@ == old(out)@ + piece@.take(i as int),
        decreases n - i,
    {
        out.push(piece[i]);
        proof {
            assert(old(out)@ + piece@.take(i + 1) =~= (old(out)@ + piece@.take(i as int)).push(
                piece@[i as int],
            ));
        }
        i += 1;
    }
    proof {
        assert(piece@.take(n as int) =~= piece@);
    }
}

impl UploadSession {
    /// The session's chunk map: for each index, the stored payload if any.
    pub closed spec fn chunk_views(&self) -> Seq<Option<Seq<u8>>> {
        Seq::new(
            self.chunks@.len(),
            |i: int|
                match self.chunks@[i] {
                    Some(v) => Some(v@),
                    None => None,
                },
        )
    }

    /// Has assembly been claimed for this session?
    pub closed spec fn is_claimed(&self) -> bool {
        self.claimed
    }

    /// The caller-visible session identifier.
    pub closed spec fn id_view(&self) -> Seq<char> {
        self.id@
    }

    /// The caller-visible session identifier.
    pub fn id(&self) -> (r: &str)
        ensures
            r@ == self.id_view(),
    {
        self.id.as_str()
    }

    /// Open a fresh session: no chunks, assembly unclaimed.
    pub fn new(id: String) -> (s: UploadSession)
        ensures
            s.chunk_views() == Seq::<Option<Seq<u8>>>::empty(),
            !s.is_claimed(),
            s.id_view() == id@,
    {
        let s = UploadSession { id, chunks: Vec::new(), claimed: false };
        proof {
            assert(s.chunk_views() =~= Seq::<Option<Seq<u8>>>::empty());
        }
        s
    }

    /// Store one chunk's bytes under its sequence index, overwriting any
    /// prior write at that index (a client may retry a chunk). No ordering
    /// or count validation happens here.
    pub fn write_chunk(&mut self, index: usize, data: Vec<u8>) -> (r: Result<(), UploadError>)
        ensures
            r is Ok,
            final(self).chunk_views() == spec_store(
                old(self).chunk_views(),
                index as int,
                data@,
            ),
            final(self).is_claimed() == old(self).is_claimed(),
            final(self).id_view() == old(self).id_view(),
    {
        while self.chunks.len() <= index
            invariant
                self.chunks@.len() >= old(self).chunks@.len(),
                self.chunks@.len() <= index + 1 || self.chunks@.len() == old(
                    self,
                ).chunks@.len(),
                forall|j: int|
                    0 <= j < old(self).chunks@.len() ==> self.chunks@[j] == old(self).chunks@[j],
                forall|j: int|
                    old(self).chunks@.len() <= j < self.chunks@.len() ==> self.chunks@[j] is None,
                self.claimed == old(self).claimed,
                self.id == old(self).id,
            decreases index + 1 - self.chunks.len(),
        {
            self.chunks.push(None);
        }
        self.chunks.set(index, Some(data));
        proof {
            assert(final(self).chunk_views() =~= spec_store(
                old(self).chunk_views(),
                index as int,
                data@,
            ));
        }
        Ok(())
    }

    /// Does the stored index set equal the declared set
    /// `{0, .., total_chunks - 1}` exactly? A session that still misses an
    /// index, or that carries a chunk at or beyond the declared count, is
    /// not complete.
    pub fn is_upload_complete(&self, total_chunks: usize) -> (r: bool)
        ensures
            r == spec_received_exactly(self.chunk_views(), total_chunks as int),
    {
        if total_chunks > self.chunks.len() {
            proof {
                assert(!spec_present(self.chunk_views(), self.chunks@.len() as int));
            }
            return false;
        }
        let mut i: usize = 0;
        while i < total_chunks
            invariant
                0 <= i <= total_chunks,
                total_chunks <= self.chunks@.len(),
                forall|j: int| 0 <= j < i ==> spec_present(self.chunk_views(), j),
            decreases total_chunks - i,
        {
            if self.chunks[i].is_none() {
                proof {
                    assert(!spec_present(self.chunk_views(), i as int));
                }
                return false;
            }
            i += 1;
        }
        let mut k: usize = total_chunks;
        let stored = self.chunks.len();
        while k < stored
            invariant
                total_chunks <= k <= stored,
                stored == self.chunks@.len(),
                forall|j: int| total_chunks <= j < k ==> !spec_present(self.chunk_views(), j),
            decreases stored - k,
        {
            if self.chunks[k].is_some() {
                proof {
                    assert(spec_present(self.chunk_views(), k as int));
                }
                return false;
            }
            k += 1;
        }
        true
    }

    /// Claim the exclusive right to assemble this session. Returns whether
    /// this caller won the claim; after one claim wins, every later claim on
    /// the session loses.
    pub fn claim_assembly(&mut self) -> (won: bool)
        ensures
            won == !old(self).is_claimed(),
            final(self).is_claimed(),
            final(self).chunk_views() == old(self).chunk_views(),
            final(self).id_view() == old(self).id_view(),
    {
        let won = !self.claimed;
        self.claimed = true;
        proof {
            assert(final(self).chunk_views() =~= old(self).chunk_views());
        }
        won
    }

    /// Concatenate the chunks `0, 1, .., total_chunks - 1` in strict index
    /// order. The first missing index aborts the whole operation with an
    /// indexed error.
    pub fn assemble(&self, total_chunks: usize) -> (r: Result<Vec<u8>, UploadError>)
        ensures
            spec_complete(self.chunk_views(), total_chunks as int) ==> (r matches Ok(out)
                && out@ == spec_assembled(self.chunk_views(), total_chunks as int)),
            !spec_complete(self.chunk_views(), total_chunks as int) ==> (r matches Err(e)
                && (e matches UploadError::ChunkMissingDuringAssembly { index }
                && !spec_present(self.chunk_views(), index as int)
                && index < total_chunks
                && (forall|k: int| 0 <= k < index ==> spec_present(self.chunk_views(), k)))),
    {
        let ghost cv = self.chunk_views();
        let mut out: Vec<u8> = Vec::new();
        let mut i: usize = 0;
        while i < total_chunks
            invariant
                0 <= i <= total_chunks,
                cv == self.chunk_views(),
                forall|k: int| 0 <= k < i ==> spec_present(cv, k),
                out@ == spec_parts(cv, i as int).flatten_alt(),
            decreases total_chunks - i,
        {
            if i >= self.chunks.len() {
                proof {
                    assert(!spec_present(cv, i as int));
                    assert(!spec_complete(cv, total_chunks as int));
                }
                return Err(UploadError::ChunkMissingDuringAssembly { index: i });
            }
            match &self.chunks[i] {
                None => {
                    proof {
                        assert(cv[i as int] is None);
                        assert(!spec_present(cv, i as int));
                        assert(!spec_complete(cv, total_chunks as int));
                    }
                    return Err(UploadError::ChunkMissingDuringAssembly { index: i });
                },
                Some(data) => {
                    push_all(&mut out, data);
                    proof {
                        assert(spec_parts(cv, i + 1).drop_last() =~= spec_parts(cv, i as int));
                        assert(spec_parts(cv, i + 1).last() == cv[i as int]->0);
                        assert(out@ == spec_parts(cv, i + 1).flatten_alt());
                    }
                },
            }
            i += 1;
        }
        proof {
            spec_parts(cv, total_chunks as int).lemma_flatten_and_flatten_alt_are_equivalent();
        }
        Ok(out)
    }
}

/// The claim step's transition relation: how `claim_assembly` moves a session
/// from `pre` to `post` while reporting `won`.
pub open spec fn claim_transition(pre: UploadSession, post: UploadSession, won: bool) -> bool {
    &&& won == !pre.is_claimed()
    &&& post.is_claimed()
    &&& post.chunk_views() == pre.chunk_views()
    &&& post.id_view() == pre.id_view()
}

/// At most one assembly per session: once a claim has won, every later claim
/// on the session loses, so of two requests that both deliver the final
/// chunk, exactly one proceeds to assemble and the other observes the
/// already-claimed outcome.
pub proof fn lemma_claim_exclusive(
    s0: UploadSession,
    s1: UploadSession,
    s2: UploadSession,
    w1: bool,
    w2: bool,
)
    requires
        claim_transition(s0, s1, w1),
        claim_transition(s1, s2, w2),
        w1,
    ensures
        !w2,
{
}

proof fn lemma_store_all_elements(parts: Seq<Seq<u8>>)
    ensures
        spec_store_all(parts).len() == parts.len(),
        forall|j: int| 0 <= j < parts.len() ==> spec_store_all(parts)[j] == Some(parts[j]),
    decreases parts.len(),
{
    if parts.len() > 0 {
        lemma_store_all_elements(parts.drop_last());
    }
}

/// Reassembly is lossless: writing any chunking of a byte sequence through
/// the store in index order and assembling the declared count yields exactly
/// the original bytes, and hence the same content digest under every driver.
pub proof fn lemma_chunked_roundtrip(parts: Seq<Seq<u8>>, driver: FileDriver)
    ensures
        spec_received_exactly(spec_store_all(parts), parts.len() as int),
        spec_assembled(spec_store_all(parts), parts.len() as int) == parts.flatten(),
        spec_digest(driver, spec_assembled(spec_store_all(parts), parts.len() as int))
            == spec_digest(driver, parts.flatten()),
{
    lemma_store_all_elements(parts);
    assert(spec_parts(spec_store_all(parts), parts.len() as int) =~= parts);
}

} // verus!
