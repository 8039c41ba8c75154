//! Decompression with `zstd`.

use crate::scan::contains_text;
use crate::text::{push_all, text_view};
use std::io::{BufReader, Cursor, Read};
use vstd::prelude::*;

verus! {

/// What `zstd::stream::decode_all` makes of compressed data: the content of its
/// frames, or an error in words.
pub uninterp spec fn zstd_content(data: Seq<u8>) -> Result<Seq<u8>, Seq<char>>;

/// `zstd::stream::decode_all` on bytes in memory: the content, or the displayed error.
#[verifier::external_body]
pub(crate) fn decode_all(data: &[u8]) -> (r: Result<Vec<u8>, String>)
    ensures
        match r {
            Ok(out) => zstd_content(data@) == Ok::<Seq<u8>, Seq<char>>(out@),
            Err(e) => zstd_content(data@) == Err::<Seq<u8>, Seq<char>>(e@),
        },
{
    zstd::stream::decode_all(Cursor::new(data)).map_err(|e| e.to_string())
}

/// A decoder of `zstd`, opaque here: [`chunks_left`] is what it still gives.
#[verifier::external_type_specification]
#[verifier::external_body]
#[verifier::reject_recursive_types(R)]
pub struct ExDecoder<'a, R>(zstd::stream::Decoder<'a, R>);

/// A reader of the standard library that reads ahead.
#[verifier::external_type_specification]
#[verifier::external_body]
#[verifier::reject_recursive_types(R)]
pub struct ExBufReader<R: ?Sized>(BufReader<R>);

/// A reader of the standard library on bytes in memory.
#[verifier::external_type_specification]
#[verifier::external_body]
#[verifier::reject_recursive_types(T)]
pub struct ExCursor<T>(Cursor<T>);

/// The chunks that reads of the given size still take from a decoder, none of them
/// empty, and the error that comes behind them, if one does.
pub uninterp spec fn chunks_left(
    d: zstd::stream::Decoder<'_, BufReader<Cursor<&[u8]>>>,
    size: usize,
) -> (Seq<Seq<u8>>, Option<Seq<char>>);

/// The chunks that reads of the given size take from a new `zstd::stream::Decoder` on
/// given data, and the error that comes behind them, if one does.
pub uninterp spec fn zstd_chunks(data: Seq<u8>, size: usize) -> (Seq<Seq<u8>>, Option<Seq<char>>);

/// `zstd::stream::Decoder::new` on bytes in memory. What it gives depends on the
/// bytes alone; where there is no decoder, nothing comes before the displayed error.
#[verifier::external_body]
pub(crate) fn open_stream<'a>(data: &'a [u8]) -> (r: Result<
    zstd::stream::Decoder<'static, BufReader<Cursor<&'a [u8]>>>,
    String,
>)
    ensures
        forall|size: usize| #[trigger]
            zstd_chunks(data@, size) == (match r {
                Ok(d) => chunks_left(d, size),
                Err(e) => (Seq::<Seq<u8>>::empty(), Some(e@)),
            }),
{
    zstd::stream::Decoder::new(Cursor::new(data)).map_err(|e| e.to_string())
}

/// `zstd::stream::Decoder::read` into a buffer of the given size: the next chunk, an
/// empty one at the end, or the displayed error.
#[verifier::external_body]
pub(crate) fn read_chunk(
    d: &mut zstd::stream::Decoder<'_, BufReader<Cursor<&[u8]>>>,
    size: usize,
) -> (r: Result<Vec<u8>, String>)
    requires
        size > 0,
    ensures
        match r {
            Ok(chunk) => if chunk@.len() == 0 {
                chunks_left(*old(d), size) == (Seq::<Seq<u8>>::empty(), None::<Seq<char>>)
            } else {
                &&& chunk@.len() <= size
                &&& chunks_left(*old(d), size) == (
                    seq![chunk@] + chunks_left(*final(d), size).0,
                    chunks_left(*final(d), size).1,
                )
            },
            Err(e) => chunks_left(*old(d), size) == (Seq::<Seq<u8>>::empty(), Some(e@)),
        },
{
    let mut chunk = vec![0u8; size];
    let count = d.read(&mut chunk).map_err(|e| e.to_string())?;
    chunk.truncate(count);
    Ok(chunk)
}

/// Chunks one behind the other.
pub open spec fn joined(chunks: Seq<Seq<u8>>) -> Seq<u8>
    decreases chunks.len(),
{
    if chunks.len() == 0 {
        seq![]
    } else {
        chunks[0] + joined(chunks.drop_first())
    }
}

/// So much is read from a decoder at a time.
pub const CHUNK_SIZE: usize = 8192;

/// The error that a decoder ends with on given data, if it ends with one, and what
/// it gives before.
pub open spec fn zstd_stream(data: Seq<u8>) -> (Option<Seq<char>>, Seq<u8>) {
    let (chunks, error) = zstd_chunks(data, CHUNK_SIZE);
    (error, joined(chunks))
}

/// The error that data behind a complete frame is met with.
pub open spec fn unknown_frame(error: Seq<char>) -> bool {
    contains_text(error, "Unknown frame descriptor"@)
}

/// Reads a decoder to its end: what it gave, and the error where it ended with one.
pub(crate) fn decode_stream(data: &[u8]) -> (r: (Vec<u8>, Option<String>))
    ensures
        (text_view(r.1), r.0@) == zstd_stream(data@),
{
    let mut out: Vec<u8> = Vec::new();
    let mut decoder = match open_stream(data) {
        Ok(decoder) => decoder,
        Err(e) => return (out, Some(e)),
    };
    let ghost (chunks, error) = zstd_chunks(data@, CHUNK_SIZE);
    assert(out@ + joined(chunks) =~= joined(chunks));
    loop
        invariant
            zstd_chunks(data@, CHUNK_SIZE) == (chunks, error),
            out@ + joined(chunks_left(decoder, CHUNK_SIZE).0) == joined(chunks),
            chunks_left(decoder, CHUNK_SIZE).1 == error,
        decreases chunks_left(decoder, CHUNK_SIZE).0.len(),
    {
        let ghost before = chunks_left(decoder, CHUNK_SIZE).0;
        let ghost read = out@;
        match read_chunk(&mut decoder, CHUNK_SIZE) {
            Ok(chunk) => {
                if chunk.len() == 0 {
                    assert(out@ + joined(before) =~= out@);
                    return (out, None);
                }
                push_all(&mut out, chunk.as_slice());
                proof {
                    let after = chunks_left(decoder, CHUNK_SIZE).0;
                    assert(before.drop_first() =~= after);
                    assert(read + joined(before) =~= out@ + joined(after));
                }
            },
            Err(e) => {
                assert(out@ + joined(before) =~= out@);
                return (out, Some(e));
            },
        }
    }
}

} // verus!
