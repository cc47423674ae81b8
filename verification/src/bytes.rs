//! Byte-buffer helpers: copying and assembling payloads.

use vstd::prelude::*;

verus! {

/// The concatenation of a list of chunks, in order.
pub open spec fn concat(chunks: Seq<Seq<u8>>) -> Seq<u8>
    decreases chunks.len(),
{
    if chunks.len() == 0 {
        Seq::empty()
    } else {
        concat(chunks.drop_last()) + chunks.last()
    }
}

/// The views of a list of buffers.
pub open spec fn chunk_views(chunks: Seq<Vec<u8>>) -> Seq<Seq<u8>> {
    Seq::new(chunks.len(), |i: int| chunks[i]@)
}

/// The views of the chunks of a list of fields.
pub open spec fn field_views(fields: Seq<Vec<Vec<u8>>>) -> Seq<Seq<Seq<u8>>> {
    Seq::new(fields.len(), |i: int| chunk_views(fields[i]@))
}

/// The bytes of every chunk of every field, in stream order.
pub open spec fn flatten(fields: Seq<Seq<Seq<u8>>>) -> Seq<u8>
    decreases fields.len(),
{
    if fields.len() == 0 {
        Seq::empty()
    } else {
        flatten(fields.drop_last()) + concat(fields.last())
    }
}

/// Concatenating a single chunk gives that chunk.
pub proof fn lemma_concat_single(chunk: Seq<u8>)
    ensures
        concat(seq![chunk]) == chunk,
{
    let one = seq![chunk];
    assert(one.drop_last() =~= Seq::<Seq<u8>>::empty());
    assert(concat(one.drop_last()) =~= Seq::<u8>::empty());
    assert(concat(one) =~= chunk);
}

/// A payload sent as one field of one chunk is assembled to itself: a raw
/// body and a one-part upload are the same payload.
pub proof fn lemma_flatten_single(chunk: Seq<u8>)
    ensures
        flatten(seq![seq![chunk]]) == chunk,
{
    let one = seq![seq![chunk]];
    lemma_concat_single(chunk);
    assert(one.drop_last() =~= Seq::<Seq<Seq<u8>>>::empty());
    assert(flatten(one.drop_last()) =~= Seq::<u8>::empty());
    assert(one.last() == seq![chunk]);
    assert(flatten(one) =~= chunk);
}

/// How a payload is cut into chunks does not matter: joining two runs of
/// chunks gives the joined payloads.
pub proof fn lemma_concat_append(front: Seq<Seq<u8>>, back: Seq<Seq<u8>>)
    ensures
        concat(front + back) == concat(front) + concat(back),
    decreases back.len(),
{
    if back.len() == 0 {
        assert(front + back =~= front);
        assert(concat(front) + concat(back) =~= concat(front));
    } else {
        lemma_concat_append(front, back.drop_last());
        assert((front + back).drop_last() =~= front + back.drop_last());
        assert((front + back).last() == back.last());
        assert(concat(front + back) =~= concat(front) + concat(back));
    }
}

/// Concatenation distributes over appending a chunk.
pub proof fn lemma_concat_push(chunks: Seq<Seq<u8>>, chunk: Seq<u8>)
    ensures
        concat(chunks.push(chunk)) == concat(chunks) + chunk,
{
    assert(chunks.push(chunk).drop_last() =~= chunks);
}

/// Flattening distributes over appending a field.
pub proof fn lemma_flatten_push(fields: Seq<Seq<Seq<u8>>>, field: Seq<Seq<u8>>)
    ensures
        flatten(fields.push(field)) == flatten(fields) + concat(field),
{
    assert(fields.push(field).drop_last() =~= fields);
}

/// An owned copy of a buffer.
pub fn copy_bytes(src: &[u8]) -> (copy: Vec<u8>)
    ensures
        copy@ == src@,
{
    let mut copy: Vec<u8> = Vec::new();
    let mut i: usize = 0;
    while i < src.len()
        invariant
            i <= src@.len(),
            copy@ == src@.take(i as int),
        decreases src@.len() - i,
    {
        copy.push(src[i]);
        proof {
            assert(copy@ =~= src@.take(i + 1));
        }
        i += 1;
    }
    proof {
        assert(src@.take(src@.len() as int) =~= src@);
    }
    copy
}

/// Appends a chunk to a buffer.
pub fn append_bytes(buffer: &mut Vec<u8>, chunk: &[u8])
    ensures
        final(buffer)@ == old(buffer)@ + chunk@,
{
    let mut i: usize = 0;
    while i < chunk.len()
        invariant
            i <= chunk@.len(),
            buffer@ == old(buffer)@ + chunk@.take(i as int),
        decreases chunk@.len() - i,
    {
        buffer.push(chunk[i]);
        proof {
            assert(buffer@ =~= old(buffer)@ + chunk@.take(i + 1));
        }
        i += 1;
    }
    proof {
        assert(chunk@.take(chunk@.len() as int) =~= chunk@);
    }
}

/// Assembles one buffer from the chunks of one field, in order.
pub fn concat_chunks(chunks: &Vec<Vec<u8>>) -> (data: Vec<u8>)
    ensures
        data@ == concat(chunk_views(chunks@)),
{
    let mut data: Vec<u8> = Vec::new();
    let mut i: usize = 0;
    while i < chunks.len()
        invariant
            i <= chunks@.len(),
            data@ == concat(chunk_views(chunks@).take(i as int)),
        decreases chunks@.len() - i,
    {
        append_bytes(&mut data, chunks[i].as_slice());
        proof {
            let views = chunk_views(chunks@);
            assert(views.take(i + 1) =~= views.take(i as int).push(chunks@[i as int]@));
            lemma_concat_push(views.take(i as int), chunks@[i as int]@);
        }
        i += 1;
    }
    proof {
        let views = chunk_views(chunks@);
        assert(views.take(chunks@.len() as int) =~= views);
    }
    data
}

/// Assembles one buffer from every chunk of every field, in stream order.
/// Fields are not told apart: the payload is the flat concatenation.
pub fn flatten_fields(fields: &Vec<Vec<Vec<u8>>>) -> (data: Vec<u8>)
    ensures
        data@ == flatten(field_views(fields@)),
{
    let mut data: Vec<u8> = Vec::new();
    let mut i: usize = 0;
    while i < fields.len()
        invariant
            i <= fields@.len(),
            data@ == flatten(field_views(fields@).take(i as int)),
        decreases fields@.len() - i,
    {
        let part = concat_chunks(&fields[i]);
        append_bytes(&mut data, part.as_slice());
        proof {
            let views = field_views(fields@);
            assert(views.take(i + 1) =~= views.take(i as int).push(chunk_views(fields@[i as int]@)));
            lemma_flatten_push(views.take(i as int), chunk_views(fields@[i as int]@));
        }
        i += 1;
    }
    proof {
        let views = field_views(fields@);
        assert(views.take(fields@.len() as int) =~= views);
    }
    data
}

} // verus!
