//! Bounded reading of HTTP bodies. A body arrives in chunks; the chunks are
//! appended to one buffer, and the read fails as soon as the buffer has grown
//! past the configured limit. The buffer therefore never holds more than the
//! limit plus one chunk.

use vstd::prelude::*;

verus! {

/// The bytes of a whole body: its chunks, concatenated in order.
pub open spec fn concat_chunks(chunks: Seq<Seq<u8>>) -> Seq<u8>
    decreases chunks.len(),
{
    if chunks.len() == 0 {
        Seq::empty()
    } else {
        concat_chunks(chunks.drop_last()) + chunks.last()
    }
}

/// The combined length of a body's chunks.
pub open spec fn total_len(chunks: Seq<Seq<u8>>) -> nat
    decreases chunks.len(),
{
    if chunks.len() == 0 {
        0
    } else {
        total_len(chunks.drop_last()) + chunks.last().len()
    }
}

pub proof fn lemma_concat_chunks_len(chunks: Seq<Seq<u8>>)
    ensures
        concat_chunks(chunks).len() == total_len(chunks),
    decreases chunks.len(),
{
    if chunks.len() > 0 {
        lemma_concat_chunks_len(chunks.drop_last());
    }
}

/// Appends one chunk to the buffer, then reports whether the buffer is still
/// within the limit. The chunk is appended whole either way, so the buffer
/// holds at most `max` plus one chunk — the size bound of the pipeline.
pub fn append_chunk(buf: &mut Vec<u8>, chunk: &[u8], max: usize) -> (ok: bool)
    requires
        old(buf)@.len() <= max,
    ensures
        final(buf)@ == old(buf)@ + chunk@,
        ok <==> final(buf)@.len() <= max,
        final(buf)@.len() <= max + chunk@.len(),
{
    crate::bytes::push_bytes(buf, chunk);
    buf.len() <= max
}

/// Reads a whole body from its chunks under the size limit. Returns the
/// concatenated bytes when their combined length is at most `max`, and
/// reports the body as too large otherwise; the buffer is abandoned at the
/// first chunk that carries it past the limit.
pub fn read_body_with_limit(chunks: &Vec<Vec<u8>>, max: usize) -> (r: Result<Vec<u8>, ()>)
    ensures
        r is Ok <==> total_len(chunks@.map_values(|c: Vec<u8>| c@)) <= max,
        r matches Ok(b) ==> b@ == concat_chunks(chunks@.map_values(|c: Vec<u8>| c@))
            && b@.len() <= max,
{
    let ghost specs = chunks@.map_values(|c: Vec<u8>| c@);
    let mut buf: Vec<u8> = Vec::new();
    let n = chunks.len();
    let mut i: usize = 0;
    proof {
        assert(specs.subrange(0, 0) =~= Seq::<Seq<u8>>::empty());
    }
    while i < n
        invariant
            0 <= i <= n,
            n == chunks@.len(),
            specs == chunks@.map_values(|c: Vec<u8>| c@),
            buf@ == concat_chunks(specs.subrange(0, i as int)),
            buf@.len() == total_len(specs.subrange(0, i as int)),
            buf@.len() <= max,
        decreases n - i,
    {
        let ghost pre = specs.subrange(0, i as int);
        let ok = append_chunk(&mut buf, chunks[i].as_slice(), max);
        proof {
            assert(specs.subrange(0, i + 1).drop_last() =~= pre);
            assert(specs.subrange(0, i + 1).last() == specs[i as int]);
            lemma_concat_chunks_len(specs.subrange(0, i + 1));
        }
        if !ok {
            proof {
                lemma_total_len_monotone(specs, i + 1);
            }
            return Err(());
        }
        i = i + 1;
    }
    proof {
        assert(specs.subrange(0, n as int) =~= specs);
    }
    Ok(buf)
}

/// Once a prefix of the chunks is already past the limit, the whole body is.
proof fn lemma_total_len_monotone(chunks: Seq<Seq<u8>>, k: int)
    requires
        0 <= k <= chunks.len(),
    ensures
        total_len(chunks.subrange(0, k)) <= total_len(chunks),
    decreases chunks.len() - k,
{
    if k < chunks.len() {
        lemma_total_len_monotone(chunks, k + 1);
        assert(chunks.subrange(0, k + 1).drop_last() =~= chunks.subrange(0, k));
    } else {
        assert(chunks.subrange(0, k) =~= chunks);
    }
}

} // verus!
