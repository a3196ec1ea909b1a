//! The wire protocol of the two transport profiles. All integers are
//! little-endian unsigned 32-bit.
//!
//! Stream profile, per frame: `[width][height][total_size][num_chunks]`,
//! then `num_chunks` writes of `[chunk_len][chunk bytes]`.
//!
//! Datagram profile, per frame: one datagram `[total_size][num_chunks]`,
//! then `num_chunks` datagrams of `[chunk_index][chunk bytes]`.

use vstd::prelude::*;
use vstd::bytes::{spec_u32_to_le_bytes, u32_to_le_bytes};

use crate::chunk::{
    encode_chunks,
    lemma_chunk_len_bounds,
    lemma_num_chunks_bounds,
    num_chunks_of,
    spec_chunk_at,
    spec_num_chunks,
};

verus! {

/// The stream profile's frame header: width, height, payload size and
/// chunk count, each as four little-endian bytes.
pub open spec fn spec_stream_header(width: u32, height: u32, total_size: u32, num_chunks: u32) -> Seq<
    u8,
> {
    spec_u32_to_le_bytes(width) + spec_u32_to_le_bytes(height) + spec_u32_to_le_bytes(total_size)
        + spec_u32_to_le_bytes(num_chunks)
}

/// The datagram profile's frame header: payload size and chunk count
/// (dimensions are negotiated out of band).
pub open spec fn spec_datagram_header(total_size: u32, num_chunks: u32) -> Seq<u8> {
    spec_u32_to_le_bytes(total_size) + spec_u32_to_le_bytes(num_chunks)
}

/// One stream-profile chunk write: the chunk's length, then its bytes.
pub open spec fn spec_stream_chunk_message(chunk: Seq<u8>) -> Seq<u8> {
    spec_u32_to_le_bytes(chunk.len() as u32) + chunk
}

/// One datagram-profile chunk datagram: the chunk's index, then its bytes.
pub open spec fn spec_datagram_packet(index: u32, chunk: Seq<u8>) -> Seq<u8> {
    spec_u32_to_le_bytes(index) + chunk
}

/// Builds the stream profile's 16-byte frame header.
pub fn stream_header(width: u32, height: u32, total_size: u32, num_chunks: u32) -> (r: Vec<u8>)
    ensures
        r@ == spec_stream_header(width, height, total_size, num_chunks),
{
    let mut r = u32_to_le_bytes(width);
    let mut h = u32_to_le_bytes(height);
    let mut t = u32_to_le_bytes(total_size);
    let mut n = u32_to_le_bytes(num_chunks);
    r.append(&mut h);
    r.append(&mut t);
    r.append(&mut n);
    r
}

/// Builds the datagram profile's 8-byte frame header.
pub fn datagram_header(total_size: u32, num_chunks: u32) -> (r: Vec<u8>)
    ensures
        r@ == spec_datagram_header(total_size, num_chunks),
{
    let mut r = u32_to_le_bytes(total_size);
    let mut n = u32_to_le_bytes(num_chunks);
    r.append(&mut n);
    r
}

/// Builds one stream-profile chunk write: four length bytes, then the
/// chunk.
pub fn stream_chunk_message(chunk: &Vec<u8>) -> (r: Vec<u8>)
    requires
        chunk@.len() <= u32::MAX,
    ensures
        r@ == spec_stream_chunk_message(chunk@),
{
    let mut r = u32_to_le_bytes(chunk.len() as u32);
    let mut i: usize = 0;
    while i < chunk.len()
        invariant
            i <= chunk@.len(),
            r@ == spec_u32_to_le_bytes(chunk@.len() as u32) + chunk@.take(i as int),
        decreases chunk@.len() - i,
    {
        r.push(chunk[i]);
        i = i + 1;
    }
    proof {
        assert(chunk@.take(i as int) =~= chunk@);
        assert(r@ =~= spec_stream_chunk_message(chunk@));
    }
    r
}

/// Builds one datagram-profile chunk datagram: four index bytes, then the
/// chunk.
pub fn datagram_packet_bytes(index: u32, chunk: &Vec<u8>) -> (r: Vec<u8>)
    ensures
        r@ == spec_datagram_packet(index, chunk@),
{
    let mut r = u32_to_le_bytes(index);
    let mut i: usize = 0;
    while i < chunk.len()
        invariant
            i <= chunk@.len(),
            r@ == spec_u32_to_le_bytes(index) + chunk@.take(i as int),
        decreases chunk@.len() - i,
    {
        r.push(chunk[i]);
        i = i + 1;
    }
    proof {
        assert(chunk@.take(i as int) =~= chunk@);
        assert(r@ =~= spec_datagram_packet(index, chunk@));
    }
    r
}

/// Encodes a frame for the stream profile: the header, then one wire
/// message per chunk — the chunk's length followed by its bytes — in
/// payload order.
pub fn encode_stream_frame(width: u32, height: u32, payload: &Vec<u8>, chunk_size: usize) -> (r: (
    Vec<u8>,
    Vec<Vec<u8>>,
))
    requires
        chunk_size > 0,
        payload@.len() <= u32::MAX,
    ensures
        r.0@ == spec_stream_header(
            width,
            height,
            payload@.len() as u32,
            spec_num_chunks(payload@.len() as int, chunk_size as int) as u32,
        ),
        r.1@.len() == spec_num_chunks(payload@.len() as int, chunk_size as int),
        forall|i: int|
            0 <= i < r.1@.len() ==> (#[trigger] r.1@[i])@ == spec_stream_chunk_message(
                spec_chunk_at(payload@, chunk_size as int, i),
            ),
{
    proof {
        lemma_num_chunks_bounds(payload@.len() as int, chunk_size as int);
    }
    let n = num_chunks_of(payload.len(), chunk_size);
    let header = stream_header(width, height, payload.len() as u32, n as u32);
    let chunks = encode_chunks(payload, chunk_size);
    let mut messages: Vec<Vec<u8>> = Vec::new();
    let mut i: usize = 0;
    while i < chunks.len()
        invariant
            chunk_size > 0,
            payload@.len() <= u32::MAX,
            chunks@.len() == spec_num_chunks(payload@.len() as int, chunk_size as int),
            forall|j: int|
                0 <= j < chunks@.len() ==> (#[trigger] chunks@[j])@ == spec_chunk_at(
                    payload@,
                    chunk_size as int,
                    j,
                ),
            i <= chunks@.len(),
            messages@.len() == i,
            forall|j: int|
                0 <= j < i ==> (#[trigger] messages@[j])@ == spec_stream_chunk_message(
                    spec_chunk_at(payload@, chunk_size as int, j),
                ),
        decreases chunks@.len() - i,
    {
        proof {
            lemma_chunk_len_bounds(payload@.len() as int, chunk_size as int, i as int);
        }
        let msg = stream_chunk_message(&chunks[i]);
        messages.push(msg);
        i = i + 1;
    }
    (header, messages)
}

/// Encodes a frame for the datagram profile: the header datagram, then one
/// datagram per chunk — the chunk's index followed by its bytes — in
/// index order.
pub fn encode_datagram_frame(payload: &Vec<u8>, chunk_size: usize) -> (r: (Vec<u8>, Vec<Vec<u8>>))
    requires
        chunk_size > 0,
        payload@.len() <= u32::MAX,
    ensures
        r.0@ == spec_datagram_header(
            payload@.len() as u32,
            spec_num_chunks(payload@.len() as int, chunk_size as int) as u32,
        ),
        r.1@.len() == spec_num_chunks(payload@.len() as int, chunk_size as int),
        forall|i: int|
            0 <= i < r.1@.len() ==> (#[trigger] r.1@[i])@ == spec_datagram_packet(
                i as u32,
                spec_chunk_at(payload@, chunk_size as int, i),
            ),
{
    proof {
        lemma_num_chunks_bounds(payload@.len() as int, chunk_size as int);
    }
    let n = num_chunks_of(payload.len(), chunk_size);
    let header = datagram_header(payload.len() as u32, n as u32);
    let chunks = encode_chunks(payload, chunk_size);
    let mut packets: Vec<Vec<u8>> = Vec::new();
    let mut i: usize = 0;
    while i < chunks.len()
        invariant
            chunk_size > 0,
            payload@.len() <= u32::MAX,
            chunks@.len() == spec_num_chunks(payload@.len() as int, chunk_size as int),
            chunks@.len() <= u32::MAX,
            forall|j: int|
                0 <= j < chunks@.len() ==> (#[trigger] chunks@[j])@ == spec_chunk_at(
                    payload@,
                    chunk_size as int,
                    j,
                ),
            i <= chunks@.len(),
            packets@.len() == i,
            forall|j: int|
                0 <= j < i ==> (#[trigger] packets@[j])@ == spec_datagram_packet(
                    j as u32,
                    spec_chunk_at(payload@, chunk_size as int, j),
                ),
        decreases chunks@.len() - i,
    {
        let pkt = datagram_packet_bytes(i as u32, &chunks[i]);
        packets.push(pkt);
        i = i + 1;
    }
    (header, packets)
}

} // verus!
