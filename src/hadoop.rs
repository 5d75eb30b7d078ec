//! The Hadoop framing of LZ4 blocks.
//!
//! A stream is a run of frames. Each frame is the decompressed size and the
//! compressed size, both as big-endian `u32`, followed by that many bytes of
//! one raw LZ4 block.

use crate::backend::{lz4_block_compress, lz4_block_compressed, lz4_block_decompress, lz4_block_decompressed};
use crate::bytes::{be32, be_bytes_u32, from_be32, lemma_be32_inverse, push_all, read_be_u32};
use crate::error::CodecError;
use vstd::prelude::*;
use vstd::slice::slice_subrange;

verus! {

/// Bytes in the two sizes that open a frame.
pub const PREFIX_LEN: usize = 8;

/// The eight bytes that open a frame.
pub open spec fn frame_header(decompressed: u32, compressed: u32) -> Seq<u8> {
    be32(decompressed) + be32(compressed)
}

/// `p` followed by the bytes of `r`, or the error of `r`.
pub open spec fn prepend(p: Seq<u8>, r: Result<Seq<u8>, CodecError>) -> Result<Seq<u8>, CodecError> {
    match r {
        Ok(x) => Ok(p + x),
        Err(e) => Err(e),
    }
}

/// The view of a byte result.
pub open spec fn bytes_result(r: Result<Vec<u8>, CodecError>) -> Result<Seq<u8>, CodecError> {
    match r {
        Ok(v) => Ok(v@),
        Err(e) => Err(e),
    }
}

/// The bytes of the frames in `b`, with room for `room` more bytes of output.
pub open spec fn hadoop_frames(b: Seq<u8>, room: nat) -> Result<Seq<u8>, CodecError>
    decreases b.len(),
{
    if b.len() == 0 {
        Ok(Seq::empty())
    } else if b.len() < PREFIX_LEN {
        Err(CodecError::UnconsumedInput)
    } else {
        let d = from_be32(b.subrange(0, 4)) as nat;
        let c = from_be32(b.subrange(4, 8)) as nat;
        if b.len() - PREFIX_LEN < c {
            Err(CodecError::TruncatedFrame)
        } else if room < d {
            Err(CodecError::OutputTooSmall)
        } else if d > i32::MAX {
            Err(CodecError::BackendFailure)
        } else {
            match lz4_block_decompressed(b.subrange(8, 8 + c as int), d) {
                None => Err(CodecError::BackendFailure),
                Some(out) => if out.len() != d {
                    Err(CodecError::SizeMismatch)
                } else {
                    prepend(out, hadoop_frames(b.skip(8 + c as int), (room - d) as nat))
                },
            }
        }
    }
}

/// What a Hadoop stream `b` decodes to with room for `capacity` bytes: a
/// stream too short for one header is a truncated frame; bytes left after
/// the last whole frame are unconsumed input.
pub open spec fn hadoop_decoded(b: Seq<u8>, capacity: nat) -> Result<Seq<u8>, CodecError> {
    if 0 < b.len() < PREFIX_LEN {
        Err(CodecError::TruncatedFrame)
    } else {
        hadoop_frames(b, capacity)
    }
}

/// The single frame that holds all of `b`, or `None` where the block
/// compressor fails or a size does not fit in a `u32`.
pub open spec fn hadoop_framed(b: Seq<u8>) -> Option<Seq<u8>> {
    match lz4_block_compressed(b) {
        Some(c) => if b.len() <= u32::MAX && c.len() <= u32::MAX {
            Some(frame_header(b.len() as u32, c.len() as u32) + c)
        } else {
            None
        },
        None => None,
    }
}

/// Decodes the Hadoop stream `input` into at most `capacity` bytes.
pub fn decompress_hadoop_frames(input: &[u8], capacity: usize) -> (r: Result<Vec<u8>, CodecError>)
    ensures
        bytes_result(r) == hadoop_decoded(input@, capacity as nat),
{
    let len = input.len();
    if 0 < len && len < PREFIX_LEN {
        return Err(CodecError::TruncatedFrame);
    }
    let mut out: Vec<u8> = Vec::new();
    let mut pos: usize = 0;
    let mut room: usize = capacity;
    assert(input@.skip(0) =~= input@);
    assert(out@ + Seq::<u8>::empty() =~= out@);
    while pos < len
        invariant
            len == input@.len(),
            len == 0 || len >= PREFIX_LEN,
            pos <= len,
            prepend(out@, hadoop_frames(input@.skip(pos as int), room as nat)) == hadoop_frames(
                input@,
                capacity as nat,
            ),
        decreases len - pos,
    {
        let ghost rest = input@.skip(pos as int);
        if len - pos < PREFIX_LEN {
            assert(rest.len() == len - pos);
            return Err(CodecError::UnconsumedInput);
        }
        let d = read_be_u32(input, pos);
        let c = read_be_u32(input, pos + 4);
        proof {
            assert(rest.subrange(0, 4) =~= input@.subrange(pos as int, pos + 4));
            assert(rest.subrange(4, 8) =~= input@.subrange(pos + 4, pos + 8));
        }
        if len - pos - PREFIX_LEN < c as usize {
            return Err(CodecError::TruncatedFrame);
        }
        if room < d as usize {
            return Err(CodecError::OutputTooSmall);
        }
        if d > i32::MAX as u32 {
            return Err(CodecError::BackendFailure);
        }
        let start = pos + PREFIX_LEN;
        let end = start + c as usize;
        let payload = slice_subrange(input, start, end);
        proof {
            assert(rest.subrange(8, 8 + c as int) =~= payload@);
        }
        match lz4_block_decompress(payload, d as usize) {
            None => {
                return Err(CodecError::BackendFailure);
            },
            Some(frame) => {
                if frame.len() != d as usize {
                    return Err(CodecError::SizeMismatch);
                }
                let ghost before = out@;
                push_all(&mut out, frame.as_slice());
                proof {
                    assert(rest.skip(8 + c as int) =~= input@.skip(end as int));
                    let tail = hadoop_frames(input@.skip(end as int), (room - d) as nat);
                    match tail {
                        Ok(x) => {
                            assert(before + (frame@ + x) =~= out@ + x);
                        },
                        Err(_) => {},
                    }
                }
                pos = end;
                room = room - d as usize;
            },
        }
    }
    proof {
        assert(input@.skip(pos as int).len() == 0);
        assert(out@ + Seq::<u8>::empty() =~= out@);
    }
    Ok(out)
}

/// Frames all of `input` as one Hadoop frame.
pub fn compress_hadoop_frame(input: &[u8]) -> (r: Option<Vec<u8>>)
    ensures
        r.is_some() == hadoop_framed(input@).is_some(),
        r matches Some(v) ==> hadoop_framed(input@) == Some(v@),
{
    match lz4_block_compress(input) {
        None => None,
        Some(c) => {
            if input.len() > u32::MAX as usize || c.len() > u32::MAX as usize {
                return None;
            }
            let mut out: Vec<u8> = Vec::new();
            let d = be_bytes_u32(input.len() as u32);
            push_all(&mut out, &d);
            let s = be_bytes_u32(c.len() as u32);
            push_all(&mut out, &s);
            push_all(&mut out, c.as_slice());
            proof {
                assert(out@ =~= frame_header(input@.len() as u32, c@.len() as u32) + c@);
            }
            Some(out)
        },
    }
}

/// Frame exactness: a whole frame whose block decodes to the announced size,
/// followed by more input, decodes to that block followed by what the rest
/// decodes to in the room that is left.
pub proof fn lemma_frame_exact(d: u32, c: u32, p: Seq<u8>, o: Seq<u8>, rest: Seq<u8>, room: nat)
    requires
        p.len() == c,
        d <= room,
        d <= i32::MAX,
        lz4_block_decompressed(p, d as nat) == Some(o),
        o.len() == d,
    ensures
        hadoop_frames(frame_header(d, c) + p + rest, room) == prepend(
            o,
            hadoop_frames(rest, (room - d) as nat),
        ),
{
    let b = frame_header(d, c) + p + rest;
    lemma_be32_inverse(d);
    lemma_be32_inverse(c);
    assert(b.subrange(0, 4) =~= be32(d));
    assert(b.subrange(4, 8) =~= be32(c));
    assert(b.subrange(8, 8 + c as int) =~= p);
    assert(b.skip(8 + c as int) =~= rest);
}

/// A frame that announces more compressed bytes than follow it is a
/// truncated frame.
pub proof fn lemma_frame_truncated(d: u32, c: u32, rest: Seq<u8>, room: nat)
    requires
        rest.len() < c,
    ensures
        hadoop_frames(frame_header(d, c) + rest, room) == Err::<Seq<u8>, CodecError>(
            CodecError::TruncatedFrame,
        ),
{
    let b = frame_header(d, c) + rest;
    lemma_be32_inverse(d);
    lemma_be32_inverse(c);
    assert(b.subrange(0, 4) =~= be32(d));
    assert(b.subrange(4, 8) =~= be32(c));
}

/// A whole frame that announces more decompressed bytes than the room left
/// fails with `OutputTooSmall`.
pub proof fn lemma_frame_output_too_small(d: u32, c: u32, rest: Seq<u8>, room: nat)
    requires
        c <= rest.len(),
        room < d,
    ensures
        hadoop_frames(frame_header(d, c) + rest, room) == Err::<Seq<u8>, CodecError>(
            CodecError::OutputTooSmall,
        ),
{
    let b = frame_header(d, c) + rest;
    lemma_be32_inverse(d);
    lemma_be32_inverse(c);
    assert(b.subrange(0, 4) =~= be32(d));
    assert(b.subrange(4, 8) =~= be32(c));
}

} // verus!
