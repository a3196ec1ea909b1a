//! Splitting a frame payload into fixed-size chunks and putting it back
//! together.
//!
//! A payload of `total` bytes and a chunk size `c > 0` give
//! `ceil(total / c)` chunks in payload order; every chunk but the last has
//! length `c`, and the last has whatever remains, always in `(0, c]`.

use vstd::prelude::*;
use vstd::arithmetic::div_mod::{
    lemma_fundamental_div_mod,
    lemma_fundamental_div_mod_converse,
    lemma_mod_bound,
};
use vstd::arithmetic::mul::lemma_mul_inequality;

verus! {

/// `ceil(total / c)`: the number of chunks a payload of `total` bytes
/// splits into with chunk size `c`.
pub open spec fn spec_num_chunks(total: int, c: int) -> int {
    if total % c == 0 {
        total / c
    } else {
        total / c + 1
    }
}

/// The length of chunk `i`: `c` for every chunk that is not the last,
/// the remainder for the last.
pub open spec fn spec_chunk_len(total: int, c: int, i: int) -> int {
    if (i + 1) * c <= total {
        c
    } else {
        total - i * c
    }
}

/// Chunk `i` of the payload: the bytes from `i*c` on, `spec_chunk_len`
/// of them.
pub open spec fn spec_chunk_at(payload: Seq<u8>, c: int, i: int) -> Seq<u8> {
    payload.subrange(i * c, i * c + spec_chunk_len(payload.len() as int, c, i))
}

/// All chunks of the payload, in index order.
pub open spec fn spec_chunks(payload: Seq<u8>, c: int) -> Seq<Seq<u8>> {
    Seq::new(spec_num_chunks(payload.len() as int, c) as nat, |i: int| spec_chunk_at(payload, c, i))
}

/// Placement of the chunk count between the two multiples of `c`
/// around `total`.
pub proof fn lemma_num_chunks_bounds(total: int, c: int)
    requires
        total >= 0,
        c > 0,
    ensures
        spec_num_chunks(total, c) >= 0,
        total == 0 ==> spec_num_chunks(total, c) == 0,
        total > 0 ==> spec_num_chunks(total, c) >= 1,
        total > 0 ==> (spec_num_chunks(total, c) - 1) * c < total,
        total <= spec_num_chunks(total, c) * c,
        spec_num_chunks(total, c) <= total,
{
    let q = total / c;
    let r = total % c;
    lemma_fundamental_div_mod(total, c);
    lemma_mod_bound(total, c);
    assert(total == q * c + r);
    assert(q >= 0) by (nonlinear_arith)
        requires
            total >= 0,
            c > 0,
            r == total % c,
            q == total / c,
            total == q * c + r,
            0 <= r < c,
    ;
    assert(q <= q * c) by (nonlinear_arith)
        requires
            q >= 0,
            c >= 1,
    ;
    if r == 0 {
        assert(spec_num_chunks(total, c) == q);
        if total > 0 {
            assert(q >= 1) by (nonlinear_arith)
                requires
                    total == q * c,
                    total > 0,
                    c > 0,
                    q >= 0,
            ;
            assert((q - 1) * c == q * c - c) by (nonlinear_arith);
        }
    } else {
        assert(spec_num_chunks(total, c) == q + 1);
        assert((q + 1) * c == q * c + c) by (nonlinear_arith);
    }
}

/// The exact length of each chunk: full chunks of `c` bytes, then a last
/// chunk of whatever remains, in `(0, c]`.
pub proof fn lemma_chunk_len_bounds(total: int, c: int, i: int)
    requires
        total >= 0,
        c > 0,
        0 <= i < spec_num_chunks(total, c),
    ensures
        0 < spec_chunk_len(total, c, i) <= c,
        i * c + spec_chunk_len(total, c, i) <= total,
        0 <= i * c,
        i < spec_num_chunks(total, c) - 1 ==> spec_chunk_len(total, c, i) == c,
        i == spec_num_chunks(total, c) - 1 ==> spec_chunk_len(total, c, i) == total - i * c,
{
    let n = spec_num_chunks(total, c);
    lemma_num_chunks_bounds(total, c);
    assert(0 <= i * c) by (nonlinear_arith)
        requires
            i >= 0,
            c > 0,
    ;
    lemma_mul_inequality(i + 1, n, c);
    assert((i + 1) * c == i * c + c) by (nonlinear_arith);
    if i < n - 1 {
        lemma_mul_inequality(i + 1, n - 1, c);
        assert((n - 1) * c < total);
    } else {
        assert((n - 1) * c < total);
        if (i + 1) * c <= total {
            assert(n * c <= total);
            assert(total <= n * c);
            assert(spec_chunk_len(total, c, i) == c);
            assert(total - i * c == c);
        }
    }
}

/// The total number of bytes held by a sequence of chunks.
pub open spec fn spec_len_sum(cs: Seq<Seq<u8>>) -> int
    decreases cs.len(),
{
    if cs.len() == 0 {
        0
    } else {
        cs.first().len() + spec_len_sum(cs.drop_first())
    }
}

/// The byte count of a flattened sequence of chunks is the sum of the
/// chunks' lengths.
pub proof fn lemma_len_sum_is_flatten_len(cs: Seq<Seq<u8>>)
    ensures
        cs.flatten().len() == spec_len_sum(cs),
    decreases cs.len(),
{
    if cs.len() > 0 {
        lemma_len_sum_is_flatten_len(cs.drop_first());
    }
}

/// Splitting a payload one chunk shorter: the chunks of a payload with
/// more than one chunk are the first `c` bytes followed by the chunks of
/// the rest.
proof fn lemma_chunks_step(payload: Seq<u8>, c: int)
    requires
        c > 0,
        spec_num_chunks(payload.len() as int, c) >= 2,
    ensures
        spec_chunks(payload, c).first() == payload.take(c),
        spec_chunks(payload, c).drop_first() == spec_chunks(payload.skip(c), c),
{
    let total = payload.len() as int;
    let n = spec_num_chunks(total, c);
    lemma_num_chunks_bounds(total, c);
    lemma_chunk_len_bounds(total, c, 0);
    assert(c < total) by {
        lemma_mul_inequality(1, n - 1, c);
    }
    assert(spec_chunk_len(total, c, 0) == c);
    assert(spec_chunks(payload, c).first() =~= payload.take(c));
    let rest = payload.skip(c);
    let total_r = rest.len() as int;
    assert(total_r == total - c);
    // one full chunk less: the quotient drops by one, the remainder is kept
    let q = total / c;
    let r = total % c;
    lemma_fundamental_div_mod(total, c);
    lemma_mod_bound(total, c);
    assert(q >= 1) by (nonlinear_arith)
        requires
            total == c * q + r,
            0 <= r < c,
            c < total,
    ;
    assert(total_r == c * (q - 1) + r) by (nonlinear_arith)
        requires
            total == c * q + r,
            total_r == total - c,
    ;
    lemma_fundamental_div_mod_converse(total_r, c, q - 1, r);
    assert(spec_num_chunks(total_r, c) == n - 1);
    assert forall|i: int| 0 <= i < n - 1 implies spec_chunks(payload, c).drop_first()[i]
        == spec_chunks(rest, c)[i] by {
        lemma_chunk_len_bounds(total, c, i + 1);
        lemma_chunk_len_bounds(total_r, c, i);
        assert((i + 1) * c == i * c + c) by (nonlinear_arith);
        assert((i + 2) * c == (i + 1) * c + c) by (nonlinear_arith);
        assert(spec_chunk_len(total, c, i + 1) == spec_chunk_len(total_r, c, i));
        assert(spec_chunk_at(payload, c, i + 1) =~= spec_chunk_at(rest, c, i));
    }
    assert(spec_chunks(payload, c).drop_first() =~= spec_chunks(rest, c));
}

/// Round trip: the chunks of a payload, concatenated in index order, are
/// the payload itself. With `lemma_len_sum_is_flatten_len` this also gives
/// that the chunk lengths sum to the payload's length.
pub proof fn lemma_chunks_round_trip(payload: Seq<u8>, c: int)
    requires
        c > 0,
    ensures
        spec_chunks(payload, c).flatten() == payload,
    decreases payload.len(),
{
    let total = payload.len() as int;
    let n = spec_num_chunks(total, c);
    lemma_num_chunks_bounds(total, c);
    if n == 0 {
        assert(spec_chunks(payload, c).flatten() =~= payload);
    } else if n == 1 {
        lemma_chunk_len_bounds(total, c, 0);
        assert(spec_chunk_len(total, c, 0) == total);
        assert(spec_chunk_at(payload, c, 0) =~= payload);
        spec_chunks(payload, c).lemma_flatten_singleton();
    } else {
        lemma_chunks_step(payload, c);
        assert(c < total) by {
            lemma_mul_inequality(1, n - 1, c);
        }
        lemma_chunks_round_trip(payload.skip(c), c);
        assert(spec_chunks(payload, c).flatten() == payload.take(c) + spec_chunks(
            payload.skip(c),
            c,
        ).flatten());
        assert(payload.take(c) + payload.skip(c) =~= payload);
    }
}

/// The chunk lengths of a payload sum to the payload's length.
pub proof fn lemma_chunk_lengths_sum(payload: Seq<u8>, c: int)
    requires
        c > 0,
    ensures
        spec_len_sum(spec_chunks(payload, c)) == payload.len(),
{
    lemma_chunks_round_trip(payload, c);
    lemma_len_sum_is_flatten_len(spec_chunks(payload, c));
}

/// The chunking law in one statement, for every payload size and every
/// chunk size `c > 0`: the chunk count is the rounded-up quotient, the
/// chunk lengths sum to the payload's length, every chunk but the last is
/// `c` bytes, and the last holds the remainder, always in `(0, c]`.
pub proof fn lemma_chunking(payload: Seq<u8>, c: int)
    requires
        c > 0,
    ensures
        spec_chunks(payload, c).len() == spec_num_chunks(payload.len() as int, c),
        spec_num_chunks(payload.len() as int, c) == (payload.len() + c - 1) / c,
        spec_len_sum(spec_chunks(payload, c)) == payload.len(),
        forall|i: int|
            0 <= i < spec_chunks(payload, c).len() - 1 ==> (#[trigger] spec_chunks(payload, c)[i]).len()
                == c,
        spec_chunks(payload, c).len() > 0 ==> {
            let n = spec_chunks(payload, c).len() as int;
            let last = spec_chunks(payload, c)[n - 1];
            &&& last.len() == payload.len() - c * (n - 1)
            &&& 0 < last.len() <= c
        },
{
    let total = payload.len() as int;
    let n = spec_num_chunks(total, c);
    lemma_num_chunks_bounds(total, c);
    lemma_chunk_lengths_sum(payload, c);
    let q = total / c;
    let r = total % c;
    lemma_fundamental_div_mod(total, c);
    lemma_mod_bound(total, c);
    if r == 0 {
        assert(total + c - 1 == q * c + (c - 1)) by (nonlinear_arith)
            requires
                total == c * q + r,
                r == 0,
        ;
        assert(0 <= c - 1 < c);
        lemma_fundamental_div_mod_converse(total + c - 1, c, q, c - 1);
    } else {
        assert(total + c - 1 == (q + 1) * c + (r - 1)) by (nonlinear_arith)
            requires
                total == c * q + r,
        ;
        assert(0 <= r - 1 < c);
        lemma_fundamental_div_mod_converse(total + c - 1, c, q + 1, r - 1);
    }
    assert forall|i: int| 0 <= i < n implies 0 < (#[trigger] spec_chunks(payload, c)[i]).len()
        <= c && (i < n - 1 ==> spec_chunks(payload, c)[i].len() == c) && (i == n - 1
        ==> spec_chunks(payload, c)[i].len() == total - i * c) by {
        lemma_chunk_len_bounds(total, c, i);
    }
    if n > 0 {
        assert(c * (n - 1) == (n - 1) * c) by (nonlinear_arith);
    }
}

/// Round trip at the chunk views: any sequence of chunk views that is,
/// element for element, the chunks of a payload — as `encode_chunks`
/// returns them — flattens back to the payload. This is the bridge from
/// `encode_chunks`' contract to `concat_chunks`' result.
pub proof fn lemma_encoded_chunks_concat(payload: Seq<u8>, c: int, views: Seq<Seq<u8>>)
    requires
        c > 0,
        views.len() == spec_num_chunks(payload.len() as int, c),
        forall|i: int| 0 <= i < views.len() ==> #[trigger] views[i] == spec_chunk_at(payload, c, i),
    ensures
        views.flatten() == payload,
{
    assert(views =~= spec_chunks(payload, c));
    lemma_chunks_round_trip(payload, c);
}

/// Concatenates chunks in the order given; the stream profile's receiver
/// reassembles a frame this way.
pub fn concat_chunks(chunks: &Vec<Vec<u8>>) -> (r: Vec<u8>)
    ensures
        r@ == chunks@.map_values(|v: Vec<u8>| v@).flatten(),
{
    let mut r: Vec<u8> = Vec::new();
    let mut i: usize = 0;
    while i < chunks.len()
        invariant
            i <= chunks@.len(),
            r@ == chunks@.map_values(|v: Vec<u8>| v@).take(i as int).flatten(),
        decreases chunks@.len() - i,
    {
        let mut k: usize = 0;
        let ghost r0 = r@;
        while k < chunks[i].len()
            invariant
                i < chunks@.len(),
                k <= chunks@[i as int]@.len(),
                r@ == r0 + chunks@[i as int]@.take(k as int),
            decreases chunks@[i as int]@.len() - k,
        {
            r.push(chunks[i][k]);
            k = k + 1;
        }
        proof {
            let views = chunks@.map_values(|v: Vec<u8>| v@);
            assert(chunks@[i as int]@.take(k as int) =~= views[i as int]);
            views.take(i as int).lemma_flatten_push(views[i as int]);
            assert(views.take(i as int).push(views[i as int]) =~= views.take(i as int + 1));
        }
        i = i + 1;
    }
    proof {
        let views = chunks@.map_values(|v: Vec<u8>| v@);
        assert(views.take(i as int) =~= views);
    }
    r
}

/// `ceil(total / c)`, computed on machine integers.
pub fn num_chunks_of(total: usize, chunk_size: usize) -> (n: usize)
    requires
        chunk_size > 0,
    ensures
        n as int == spec_num_chunks(total as int, chunk_size as int),
        n <= total,
{
    let q = total / chunk_size;
    let r = total % chunk_size;
    proof {
        lemma_fundamental_div_mod(total as int, chunk_size as int);
        lemma_mod_bound(total as int, chunk_size as int);
        assert(q <= q * chunk_size) by (nonlinear_arith)
            requires
                q >= 0,
                chunk_size >= 1,
        ;
    }
    if r == 0 {
        q
    } else {
        proof {
            assert(q < total) by (nonlinear_arith)
                requires
                    total as int == chunk_size as int * (q as int) + r as int,
                    r >= 1,
                    chunk_size >= 1,
                    q >= 0,
            ;
        }
        q + 1
    }
}

/// Splits the payload into chunks of `chunk_size` bytes, the last chunk
/// holding the remainder; the chunks come in payload order.
pub fn encode_chunks(payload: &Vec<u8>, chunk_size: usize) -> (chunks: Vec<Vec<u8>>)
    requires
        chunk_size > 0,
    ensures
        chunks@.len() == spec_num_chunks(payload@.len() as int, chunk_size as int),
        forall|i: int|
            0 <= i < chunks@.len() ==> (#[trigger] chunks@[i])@ == spec_chunk_at(
                payload@,
                chunk_size as int,
                i,
            ),
{
    let total = payload.len();
    let n = num_chunks_of(total, chunk_size);
    let mut chunks: Vec<Vec<u8>> = Vec::new();
    let mut i: usize = 0;
    while i < n
        invariant
            chunk_size > 0,
            n as int == spec_num_chunks(total as int, chunk_size as int),
            total == payload@.len(),
            i <= n,
            chunks@.len() == i,
            forall|j: int|
                0 <= j < i ==> (#[trigger] chunks@[j])@ == spec_chunk_at(
                    payload@,
                    chunk_size as int,
                    j,
                ),
        decreases n - i,
    {
        proof {
            lemma_chunk_len_bounds(total as int, chunk_size as int, i as int);
        }
        let start = i * chunk_size;
        let len_i = if total - start > chunk_size {
            chunk_size
        } else {
            total - start
        };
        assert(len_i as int == spec_chunk_len(total as int, chunk_size as int, i as int));
        let mut chunk: Vec<u8> = Vec::new();
        let mut k: usize = 0;
        while k < len_i
            invariant
                start + len_i <= total,
                total == payload@.len(),
                k <= len_i,
                chunk@.len() == k,
                forall|m: int| 0 <= m < k ==> chunk@[m] == payload@[start + m],
            decreases len_i - k,
        {
            chunk.push(payload[start + k]);
            k = k + 1;
        }
        assert(chunk@ =~= spec_chunk_at(payload@, chunk_size as int, i as int));
        chunks.push(chunk);
        i = i + 1;
    }
    chunks
}

} // verus!
