//! Reassembly of a frame from indexed datagram chunks.
//!
//! The datagram profile tags every chunk with its index, so the receiver
//! can put a frame back together whatever order the chunks arrive in.

use vstd::prelude::*;
use vstd::arithmetic::div_mod::{lemma_fundamental_div_mod, lemma_mod_bound};
use vstd::arithmetic::mul::lemma_mul_inequality;
use vstd::seq_lib::*;
use vstd::set_lib::{lemma_int_range, lemma_subset_equality, set_int_range};

use crate::chunk::{
    lemma_chunk_len_bounds,
    lemma_num_chunks_bounds,
    num_chunks_of,
    spec_chunk_at,
    spec_chunk_len,
    spec_num_chunks,
};

verus! {

/// One received datagram chunk: the index it carries on the wire, and its
/// payload bytes.
pub struct Packet {
    pub index: u32,
    pub data: Vec<u8>,
}

/// No two packets carry the same index.
pub open spec fn indices_distinct(ps: Seq<Packet>) -> bool {
    forall|j: int, k: int|
        0 <= j < k < ps.len() ==> (#[trigger] ps[j]).index != (#[trigger] ps[k]).index
}

/// The packets are exactly one frame's worth: one packet per chunk index,
/// each of the length that chunk has for a payload of `total` bytes.
pub open spec fn packets_valid(ps: Seq<Packet>, total: int, c: int) -> bool {
    let n = spec_num_chunks(total, c);
    &&& ps.len() == n
    &&& indices_distinct(ps)
    &&& forall|j: int|
        0 <= j < ps.len() ==> (#[trigger] ps[j]).index < n && ps[j].data@.len() == spec_chunk_len(
            total,
            c,
            ps[j].index as int,
        )
}

/// The regions two distinct chunk indices occupy in the payload do not
/// overlap: the lower one ends at or before the higher one starts.
proof fn lemma_regions_disjoint(total: int, c: int, i1: int, i2: int)
    requires
        total >= 0,
        c > 0,
        0 <= i1 < i2 < spec_num_chunks(total, c),
    ensures
        i1 * c + spec_chunk_len(total, c, i1) <= i2 * c,
{
    lemma_chunk_len_bounds(total, c, i1);
    assert((i1 + 1) * c == i1 * c + c) by (nonlinear_arith);
    lemma_mul_inequality(i1 + 1, i2, c);
}

/// Rebuilds a frame payload of `total_size` bytes from indexed chunks.
/// Succeeds exactly when the packets are one frame's worth: one packet per
/// chunk index in any order, each of that chunk's length. On success each
/// packet's bytes sit at the offset its index names.
pub fn reassemble(packets: &Vec<Packet>, total_size: usize, chunk_size: usize) -> (r: Option<
    Vec<u8>,
>)
    requires
        chunk_size > 0,
    ensures
        r is Some <==> packets_valid(packets@, total_size as int, chunk_size as int),
        r matches Some(out) ==> {
            &&& out@.len() == total_size
            &&& forall|j: int|
                0 <= j < packets@.len() ==> out@.subrange(
                    (#[trigger] packets@[j]).index as int * chunk_size,
                    packets@[j].index as int * chunk_size + packets@[j].data@.len() as int,
                ) == packets@[j].data@
        },
{
    let ghost total = total_size as int;
    let ghost c = chunk_size as int;
    let n = num_chunks_of(total_size, chunk_size);
    proof {
        lemma_num_chunks_bounds(total, c);
    }
    if packets.len() != n {
        return None;
    }
    let mut seen: Vec<bool> = Vec::new();
    let mut i: usize = 0;
    while i < n
        invariant
            i <= n,
            seen@.len() == i,
            forall|m: int| 0 <= m < i ==> !(#[trigger] seen@[m]),
        decreases n - i,
    {
        seen.push(false);
        i = i + 1;
    }
    let mut out: Vec<u8> = Vec::new();
    let mut i: usize = 0;
    while i < total_size
        invariant
            i <= total_size,
            out@.len() == i,
        decreases total_size - i,
    {
        out.push(0);
        i = i + 1;
    }
    let mut j: usize = 0;
    while j < packets.len()
        invariant
            chunk_size > 0,
            total == total_size as int,
            c == chunk_size as int,
            n as int == spec_num_chunks(total, c),
            packets@.len() == n,
            j <= packets@.len(),
            seen@.len() == n,
            out@.len() == total_size,
            forall|idx: int|
                0 <= idx < n ==> ((#[trigger] seen@[idx]) <==> exists|jj: int|
                    0 <= jj < j && (#[trigger] packets@[jj]).index == idx),
            forall|jj: int, kk: int|
                0 <= jj < kk < j ==> (#[trigger] packets@[jj]).index != (
                #[trigger] packets@[kk]).index,
            forall|jj: int|
                0 <= jj < j ==> (#[trigger] packets@[jj]).index < n
                    && packets@[jj].data@.len() == spec_chunk_len(
                    total,
                    c,
                    packets@[jj].index as int,
                ),
            forall|jj: int|
                0 <= jj < j ==> out@.subrange(
                    (#[trigger] packets@[jj]).index as int * c,
                    packets@[jj].index as int * c + packets@[jj].data@.len() as int,
                ) == packets@[jj].data@,
        decreases packets@.len() - j,
    {
        let idx = packets[j].index as usize;
        if idx >= n {
            return None;
        }
        if seen[idx] {
            return None;
        }
        proof {
            lemma_chunk_len_bounds(total, c, idx as int);
        }
        let start = idx * chunk_size;
        let expected = if total_size - start > chunk_size {
            chunk_size
        } else {
            total_size - start
        };
        assert(expected as int == spec_chunk_len(total, c, idx as int));
        if packets[j].data.len() != expected {
            return None;
        }
        seen.set(idx, true);
        let ghost out0 = out@;
        let mut k: usize = 0;
        while k < expected
            invariant
                start + expected <= total_size,
                expected == packets@[j as int].data@.len(),
                j < packets@.len(),
                k <= expected,
                out@.len() == out0.len() == total_size,
                forall|m: int|
                    0 <= m < total_size && !(start <= m < start + k) ==> out@[m] == out0[m],
                forall|m: int| 0 <= m < k ==> out@[start + m] == packets@[j as int].data@[m],
            decreases expected - k,
        {
            out.set(start + k, packets[j].data[k]);
            k = k + 1;
        }
        proof {
            assert forall|jj: int|
                0 <= jj < j implies out@.subrange(
                (#[trigger] packets@[jj]).index as int * c,
                packets@[jj].index as int * c + packets@[jj].data@.len() as int,
            ) == packets@[jj].data@ by {
                let other = packets@[jj].index as int;
                let olen = packets@[jj].data@.len() as int;
                if other < idx as int {
                    lemma_regions_disjoint(total, c, other, idx as int);
                } else {
                    lemma_regions_disjoint(total, c, idx as int, other);
                }
                lemma_chunk_len_bounds(total, c, other);
                assert(out@.subrange(other * c, other * c + olen) =~= out0.subrange(
                    other * c,
                    other * c + olen,
                ));
            }
            assert(out@.subrange(idx as int * c, idx as int * c + expected as int)
                =~= packets@[j as int].data@);
        }
        j = j + 1;
    }
    assert(packets_valid(packets@, total, c));
    Some(out)
}

/// Round trip for the datagram profile: if the packets are the chunks of a
/// payload in any order, a buffer that holds every packet's bytes at the
/// offset its index names — as `reassemble` produces — is the payload
/// itself.
pub proof fn lemma_datagram_round_trip(payload: Seq<u8>, c: int, ps: Seq<Packet>, out: Seq<u8>)
    requires
        c > 0,
        ps.len() == spec_num_chunks(payload.len() as int, c),
        indices_distinct(ps),
        forall|j: int|
            0 <= j < ps.len() ==> (#[trigger] ps[j]).index < ps.len() && ps[j].data@
                == spec_chunk_at(payload, c, ps[j].index as int),
        out.len() == payload.len(),
        forall|j: int|
            0 <= j < ps.len() ==> out.subrange(
                (#[trigger] ps[j]).index as int * c,
                ps[j].index as int * c + ps[j].data@.len() as int,
            ) == ps[j].data@,
    ensures
        out == payload,
{
    let total = payload.len() as int;
    let n = spec_num_chunks(total, c);
    lemma_num_chunks_bounds(total, c);
    // every chunk index is carried by some packet
    let idxs = ps.map_values(|p: Packet| p.index as int);
    assert(idxs.no_duplicates());
    idxs.unique_seq_to_set();
    lemma_int_range(0, n);
    assert(idxs.to_set().subset_of(set_int_range(0, n))) by {
        assert forall|x: int| idxs.to_set().contains(x) implies set_int_range(0, n).contains(
            x,
        ) by {
            let j = choose|j: int| 0 <= j < idxs.len() && idxs[j] == x;
            assert(ps[j].index < n);
        }
    }
    lemma_subset_equality(idxs.to_set(), set_int_range(0, n));
    assert forall|m: int| 0 <= m < total implies out[m] == payload[m] by {
        let q = m / c;
        lemma_fundamental_div_mod(m, c);
        lemma_mod_bound(m, c);
        assert(0 <= q && q * c <= m < q * c + c) by (nonlinear_arith)
            requires
                m == c * q + m % c,
                0 <= m % c < c,
                m >= 0,
                c > 0,
        ;
        assert(q < n) by {
            assert(total <= n * c);
            if q >= n {
                lemma_mul_inequality(n, q, c);
                assert(n * c <= q * c);
            }
        }
        assert(set_int_range(0, n).contains(q));
        assert(idxs.to_set().contains(q));
        let j = choose|j: int| 0 <= j < idxs.len() && idxs[j] == q;
        lemma_chunk_len_bounds(total, c, q);
        let len_q = spec_chunk_len(total, c, q);
        assert(m < q * c + len_q) by {
            if len_q < c {
                assert(len_q == total - q * c);
            }
        }
        let region = out.subrange(q * c, q * c + len_q);
        assert(region == ps[j].data@);
        assert(region[m - q * c] == out[m]);
        assert(ps[j].data@[m - q * c] == spec_chunk_at(payload, c, q)[m - q * c]);
        assert(spec_chunk_at(payload, c, q)[m - q * c] == payload[m]);
    }
    assert(out =~= payload);
}

} // verus!
