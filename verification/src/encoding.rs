//! Run-length encoding of fixed-size chunks.
//!
//! The input is walked in blocks of [`BLOCK_LEN`] bytes; every block (and the
//! shorter tail behind the last full block) is cut into chunks of `CHUNK_LEN`
//! bytes, and bytes of a block that do not fill a chunk are passed over. The
//! encoder writes one record per run of equal chunks: a count byte followed by
//! the chunk. A run longer than 255 chunks is split into records of 255.

use vstd::arithmetic::div_mod::{
    lemma_div_is_ordered_by_denominator, lemma_fundamental_div_mod,
    lemma_fundamental_div_mod_converse,
};
use vstd::arithmetic::mul::{lemma_mul_inequality, lemma_mul_is_commutative};
use vstd::prelude::*;
use vstd::slice::slice_subrange;

verus! {

/// Number of bytes in one block of the input.
pub const BLOCK_LEN: usize = 64;

/// Number of chunks that the encoder reads from `len` bytes of input.
pub open spec fn chunk_count(len: int, chunk_len: int) -> int {
    (len / 64) * (64int / chunk_len) + (len % 64) / chunk_len
}

/// Offset in the input of the chunk with index `i`.
pub open spec fn chunk_start(i: int, chunk_len: int) -> int {
    (i / (64int / chunk_len)) * 64 + (i % (64int / chunk_len)) * chunk_len
}

/// The chunk with index `i`.
pub open spec fn chunk_at(input: Seq<u8>, chunk_len: int, i: int) -> Seq<u8> {
    input.subrange(chunk_start(i, chunk_len), chunk_start(i, chunk_len) + chunk_len)
}

/// The chunks of `input`, in the order in which the encoder reads them.
pub open spec fn chunks(input: Seq<u8>, chunk_len: int) -> Seq<Seq<u8>> {
    Seq::new(chunk_count(input.len() as int, chunk_len) as nat, |i: int| chunk_at(input, chunk_len, i))
}

/// Count byte of record `j` of an encoded buffer.
pub open spec fn record_run(out: Seq<u8>, chunk_len: int, j: int) -> int {
    out[j * (chunk_len + 1)] as int
}

/// Chunk of record `j` of an encoded buffer.
pub open spec fn record_chunk(out: Seq<u8>, chunk_len: int, j: int) -> Seq<u8> {
    out.subrange(j * (chunk_len + 1) + 1, (j + 1) * (chunk_len + 1))
}

/// Number of whole records in an encoded buffer.
pub open spec fn record_count(out: Seq<u8>, chunk_len: int) -> int {
    out.len() as int / (chunk_len + 1)
}

/// `n` copies of `chunk`.
pub open spec fn repeated(chunk: Seq<u8>, n: int) -> Seq<Seq<u8>> {
    Seq::new(n as nat, |k: int| chunk)
}

/// The chunks that the first `m` records of an encoded buffer stand for.
pub open spec fn expand(out: Seq<u8>, chunk_len: int, m: nat) -> Seq<Seq<u8>>
    decreases m,
{
    if m == 0 {
        Seq::empty()
    } else {
        expand(out, chunk_len, (m - 1) as nat) + repeated(
            record_chunk(out, chunk_len, m - 1),
            record_run(out, chunk_len, m - 1),
        )
    }
}

/// No record of the first `m` could have absorbed the one behind it: two
/// neighbours hold different chunks, or the first of them is full.
pub open spec fn runs_are_maximal(out: Seq<u8>, chunk_len: int, m: int) -> bool {
    forall|j: int|
        0 <= j < m - 1 ==> record_chunk(out, chunk_len, j) != #[trigger] record_chunk(
            out,
            chunk_len,
            j + 1,
        ) || record_run(out, chunk_len, j) == 255
}

/// Every one of the first `m` records counts at least one chunk.
pub open spec fn runs_are_nonempty(out: Seq<u8>, chunk_len: int, m: int) -> bool {
    forall|j: int| 0 <= j < m ==> #[trigger] record_run(out, chunk_len, j) >= 1
}

/// What the encoder holds after reading `i` chunks: `m` finished records in
/// `out`, and an open run of `count` copies of the chunk at offset `last`.
spec fn encoder_state(
    input: Seq<u8>,
    chunk_len: int,
    out: Seq<u8>,
    m: int,
    count: int,
    last: int,
    i: int,
) -> bool {
    let open_chunk = input.subrange(last, last + chunk_len);
    &&& 0 <= m
    &&& out.len() == m * (chunk_len + 1)
    &&& 0 <= last
    &&& last + chunk_len <= input.len()
    &&& 0 <= count <= 255
    &&& 0 <= i <= chunk_count(input.len() as int, chunk_len)
    &&& expand(out, chunk_len, m as nat) + repeated(open_chunk, count) == chunks(
        input,
        chunk_len,
    ).take(i)
    &&& runs_are_nonempty(out, chunk_len, m)
    &&& runs_are_maximal(out, chunk_len, m)
    &&& m > 0 ==> record_chunk(out, chunk_len, m - 1) != open_chunk || record_run(
        out,
        chunk_len,
        m - 1,
    ) == 255
    &&& i >= 1 ==> count >= 1
    &&& i == 0 ==> count == 0 && m == 0 && last == 0
}

/// Records that lie wholly inside a prefix are the same in every extension.
proof fn lemma_records_stable(out: Seq<u8>, more: Seq<u8>, chunk_len: int, m: int)
    requires
        chunk_len > 0,
        0 <= m,
        m * (chunk_len + 1) <= out.len(),
    ensures
        forall|j: int|
            0 <= j < m ==> #[trigger] record_run(out + more, chunk_len, j) == record_run(
                out,
                chunk_len,
                j,
            ),
        forall|j: int|
            0 <= j < m ==> #[trigger] record_chunk(out + more, chunk_len, j) == record_chunk(
                out,
                chunk_len,
                j,
            ),
{
    assert forall|j: int| 0 <= j < m implies #[trigger] record_run(out + more, chunk_len, j)
        == record_run(out, chunk_len, j) by {
        lemma_record_bounds(chunk_len, j, m);
    }
    assert forall|j: int| 0 <= j < m implies #[trigger] record_chunk(out + more, chunk_len, j)
        == record_chunk(out, chunk_len, j) by {
        lemma_record_bounds(chunk_len, j, m);
        assert(record_chunk(out + more, chunk_len, j) =~= record_chunk(out, chunk_len, j));
    }
}

/// Record `j` of `m` lies inside the first `m * (chunk_len + 1)` bytes.
proof fn lemma_record_bounds(chunk_len: int, j: int, m: int)
    requires
        chunk_len > 0,
        0 <= j < m,
    ensures
        0 <= j * (chunk_len + 1),
        (j + 1) * (chunk_len + 1) == j * (chunk_len + 1) + chunk_len + 1,
        (j + 1) * (chunk_len + 1) <= m * (chunk_len + 1),
{
    lemma_mul_inequality(j + 1, m, chunk_len + 1);
    lemma_mul_inequality(0, j, chunk_len + 1);
    assert((j + 1) * (chunk_len + 1) == j * (chunk_len + 1) + chunk_len + 1) by (nonlinear_arith);
}

/// The expansion of a prefix of records is the same in every extension.
proof fn lemma_expand_stable(out: Seq<u8>, more: Seq<u8>, chunk_len: int, m: nat)
    requires
        chunk_len > 0,
        m * (chunk_len + 1) <= out.len(),
    ensures
        expand(out + more, chunk_len, m) == expand(out, chunk_len, m),
    decreases m,
{
    if m > 0 {
        assert((m - 1) * (chunk_len + 1) <= m * (chunk_len + 1)) by (nonlinear_arith)
            requires
                chunk_len > 0,
                m > 0,
        ;
        lemma_expand_stable(out, more, chunk_len, (m - 1) as nat);
        lemma_records_stable(out, more, chunk_len, m as int);
        assert(record_run(out + more, chunk_len, m - 1) == record_run(out, chunk_len, m - 1));
        assert(record_chunk(out + more, chunk_len, m - 1) == record_chunk(out, chunk_len, m - 1));
    }
}

/// What the record just written behind `m` finished records holds.
proof fn lemma_new_record(out: Seq<u8>, count: u8, chunk: Seq<u8>, chunk_len: int, m: int)
    requires
        chunk_len > 0,
        0 <= m,
        out.len() == m * (chunk_len + 1),
        chunk.len() == chunk_len,
    ensures
        (out + seq![count] + chunk).len() == (m + 1) * (chunk_len + 1),
        record_run(out + seq![count] + chunk, chunk_len, m) == count,
        record_chunk(out + seq![count] + chunk, chunk_len, m) == chunk,
{
    let full = out + seq![count] + chunk;
    assert((m + 1) * (chunk_len + 1) == m * (chunk_len + 1) + chunk_len + 1) by (nonlinear_arith);
    assert(full[m * (chunk_len + 1)] == count);
    assert(record_chunk(full, chunk_len, m) =~= chunk);
}

/// The offset of chunk `k` of block `b` is the offset of chunk `b * per + k`.
proof fn lemma_chunk_start(chunk_len: int, b: int, k: int)
    requires
        0 < chunk_len <= 64,
        0 <= b,
        0 <= k < 64int / chunk_len,
    ensures
        chunk_start(b * (64int / chunk_len) + k, chunk_len) == b * 64 + k * chunk_len,
{
    let per = 64int / chunk_len;
    lemma_fundamental_div_mod_converse(b * per + k, per, b, k);
}

/// Writes one record: the count byte, then the chunk at `start`.
fn push_record(output: &mut Vec<u8>, count: u8, input: &[u8], start: usize, chunk_len: usize)
    requires
        start + chunk_len <= input@.len(),
    ensures
        final(output)@ == old(output)@ + seq![count] + input@.subrange(
            start as int,
            start + chunk_len,
        ),
{
    let _len = input.len();
    output.push(count);
    output.extend_from_slice(slice_subrange(input, start, start + chunk_len));
}

/// Are the chunks at offsets `a` and `b` equal?
fn same_chunk(input: &[u8], a: usize, b: usize, chunk_len: usize) -> (same: bool)
    requires
        a + chunk_len <= input@.len(),
        b + chunk_len <= input@.len(),
    ensures
        same == (input@.subrange(a as int, a + chunk_len) == input@.subrange(
            b as int,
            b + chunk_len,
        )),
{
    let _len = input.len();
    let mut t: usize = 0;
    while t < chunk_len
        invariant
            t <= chunk_len,
            input@.len() <= usize::MAX,
            a + chunk_len <= input@.len(),
            b + chunk_len <= input@.len(),
            input@.subrange(a as int, a + t) == input@.subrange(b as int, b + t),
        decreases chunk_len - t,
    {
        if input[a + t] != input[b + t] {
            proof {
                let x = input@.subrange(a as int, a + chunk_len);
                let y = input@.subrange(b as int, b + chunk_len);
                assert(x[t as int] != y[t as int]);
            }
            return false;
        }
        proof {
            let x = input@.subrange(a as int, a + t);
            let y = input@.subrange(b as int, b + t);
            assert(input@.subrange(a as int, a + t + 1) =~= x.push(input@[a + t]));
            assert(input@.subrange(b as int, b + t + 1) =~= y.push(input@[b + t]));
        }
        t += 1;
    }
    true
}

/// Takes chunk `i`, which lies at offset `start`, into the encoder's state.
fn absorb_chunk(
    input: &[u8],
    output: &mut Vec<u8>,
    count: &mut u8,
    last: &mut usize,
    start: usize,
    chunk_len: usize,
    Ghost(m): Ghost<int>,
    Ghost(i): Ghost<int>,
) -> (records: Ghost<int>)
    requires
        chunk_len > 0,
        encoder_state(
            input@,
            chunk_len as int,
            old(output)@,
            m,
            *old(count) as int,
            *old(last) as int,
            i,
        ),
        i < chunk_count(input@.len() as int, chunk_len as int),
        start == chunk_start(i, chunk_len as int),
        start + chunk_len <= input@.len(),
    ensures
        encoder_state(
            input@,
            chunk_len as int,
            final(output)@,
            records@,
            *final(count) as int,
            *final(last) as int,
            i + 1,
        ),
{
    let ghost l = chunk_len as int;
    let ghost all = chunks(input@, l);
    let ghost open_chunk = input@.subrange(*last as int, *last + l);
    let ghost current = input@.subrange(start as int, start + l);
    let ghost before = output@;
    proof {
        assert(all[i] == current);
        assert(all.take(i + 1) =~= all.take(i) + seq![current]);
        if i == 0 {
            assert(start == 0) by {
                if l <= 64 {
                    lemma_div_is_ordered_by_denominator(64, l, 64);
                    lemma_chunk_start(l, 0, 0);
                } else {
                    assert(64int / l == 0) by (nonlinear_arith)
                        requires
                            l > 64,
                    ;
                    assert(chunk_count(input@.len() as int, l) == (input@.len() as int % 64) / l);
                    assert((input@.len() as int % 64) / l == 0) by (nonlinear_arith)
                        requires
                            l > 64,
                            0 <= input@.len() as int % 64 < 64,
                    ;
                }
            }
        }
    }
    if same_chunk(input, *last, start, chunk_len) {
        if *count == u8::MAX {
            push_record(output, *count, input, *last, chunk_len);
            proof {
                lemma_new_record(before, 255u8, open_chunk, l, m);
                lemma_expand_stable(before, seq![255u8] + open_chunk, l, m as nat);
                lemma_records_stable(before, seq![255u8] + open_chunk, l, m);
                assert(before + seq![255u8] + open_chunk =~= before + (seq![255u8] + open_chunk));
                assert(repeated(open_chunk, 1) =~= seq![current]);
                assert(repeated(open_chunk, 0) =~= Seq::<Seq<u8>>::empty());
                assert(expand(output@, l, (m + 1) as nat) + repeated(open_chunk, 1) =~= all.take(
                    i + 1,
                ));
                assert forall|j: int| 0 <= j < m implies record_chunk(output@, l, j)
                    != #[trigger] record_chunk(output@, l, j + 1) || record_run(output@, l, j)
                    == 255 by {
                    if j < m - 1 {
                        assert(record_chunk(before, l, j) != record_chunk(before, l, j + 1)
                            || record_run(before, l, j) == 255);
                    }
                }
            }
            *count = 1;
            Ghost(m + 1)
        } else {
            proof {
                assert(repeated(open_chunk, *count + 1) =~= repeated(open_chunk, *count as int)
                    + seq![current]);
                assert(expand(before, l, m as nat) + repeated(open_chunk, *count + 1) =~= (expand(
                    before,
                    l,
                    m as nat,
                ) + repeated(open_chunk, *count as int)) + seq![current]);
            }
            *count = *count + 1;
            Ghost(m)
        }
    } else {
        push_record(output, *count, input, *last, chunk_len);
        proof {
            let c = *count;
            lemma_new_record(before, c, open_chunk, l, m);
            lemma_expand_stable(before, seq![c] + open_chunk, l, m as nat);
            lemma_records_stable(before, seq![c] + open_chunk, l, m);
            assert(before + seq![c] + open_chunk =~= before + (seq![c] + open_chunk));
            assert(repeated(current, 1) =~= seq![current]);
            assert(expand(output@, l, (m + 1) as nat) + repeated(current, 1) =~= all.take(i + 1));
            assert forall|j: int| 0 <= j < m implies record_chunk(output@, l, j)
                != #[trigger] record_chunk(output@, l, j + 1) || record_run(output@, l, j)
                == 255 by {
                if j < m - 1 {
                    assert(record_chunk(before, l, j) != record_chunk(before, l, j + 1)
                        || record_run(before, l, j) == 255);
                }
            }
        }
        *count = 1;
        *last = start;
        Ghost(m + 1)
    }
}

/// Run-length encodes the chunks of `input`.
///
/// The result is a whole number of records of `CHUNK_LEN + 1` bytes. Expanded,
/// they give back the chunks of the input in order; no record is empty and no
/// two neighbours could have been one record. An input with no chunk at all
/// (a chunk longer than a block) gives the single record of count 0 that holds
/// the first `CHUNK_LEN` bytes.
pub fn rle_encode<const CHUNK_LEN: usize>(input: &[u8]) -> (output: Vec<u8>)
    requires
        CHUNK_LEN > 0,
        CHUNK_LEN <= input@.len(),
        input@.len() % 4 == 0,
        input@.len() >= 8,
    ensures
        output@.len() == record_count(output@, CHUNK_LEN as int) * (CHUNK_LEN + 1),
        record_count(output@, CHUNK_LEN as int) >= 1,
        expand(output@, CHUNK_LEN as int, record_count(output@, CHUNK_LEN as int) as nat) == chunks(
            input@,
            CHUNK_LEN as int,
        ),
        runs_are_maximal(output@, CHUNK_LEN as int, record_count(output@, CHUNK_LEN as int)),
        chunks(input@, CHUNK_LEN as int).len() > 0 ==> runs_are_nonempty(
            output@,
            CHUNK_LEN as int,
            record_count(output@, CHUNK_LEN as int),
        ),
        chunks(input@, CHUNK_LEN as int).len() == 0 ==> output@ == seq![0u8] + input@.subrange(
            0,
            CHUNK_LEN as int,
        ),
{
    let len = input.len();
    let per: usize = BLOCK_LEN / CHUNK_LEN;
    let blocks: usize = len / BLOCK_LEN;
    let tail: usize = (len % BLOCK_LEN) / CHUNK_LEN;
    let ghost l = CHUNK_LEN as int;
    let ghost total = chunk_count(len as int, l);
    let mut output: Vec<u8> = Vec::new();
    let mut count: u8 = 0;
    let mut last: usize = 0;
    let mut m: Ghost<int> = Ghost(0);
    let mut b: usize = 0;
    proof {
        lemma_fundamental_div_mod(len as int, 64);
        lemma_mul_is_commutative(64, len as int / 64);
        assert(total == blocks * per + tail);
        assert(tail <= per) by {
            if l <= 64 {
                lemma_div_is_ordered_by_denominator(64, 1, l);
                vstd::arithmetic::div_mod::lemma_div_is_ordered(len as int % 64, 64, l);
            } else {
                assert((len as int % 64) / l == 0) by (nonlinear_arith)
                    requires
                        l > 64,
                        0 <= len as int % 64 < 64,
                ;
            }
        }
        assert(0 <= blocks * per) by (nonlinear_arith)
            requires
                0 <= blocks,
                0 <= per,
        ;
        assert(expand(output@, l, 0) + repeated(input@.subrange(0, l), 0) =~= chunks(
            input@,
            l,
        ).take(0));
    }
    while b <= blocks
        invariant
            CHUNK_LEN > 0,
            CHUNK_LEN <= input@.len(),
            len == input@.len(),
            l == CHUNK_LEN as int,
            per == 64int / l,
            blocks == len as int / 64,
            tail == (len as int % 64) / l,
            tail <= per,
            total == blocks * per + tail,
            total == chunk_count(len as int, l),
            len as int == 64 * blocks + len as int % 64,
            b <= blocks + 1,
            b <= blocks ==> encoder_state(
                input@,
                l,
                output@,
                m@,
                count as int,
                last as int,
                b * per,
            ),
            b == blocks + 1 ==> encoder_state(
                input@,
                l,
                output@,
                m@,
                count as int,
                last as int,
                total,
            ),
        decreases blocks + 1 - b,
    {
        let in_block: usize = if b < blocks {
            per
        } else {
            tail
        };
        let mut k: usize = 0;
        proof {
            assert((b + 1) * per == b * per + per) by (nonlinear_arith);
            if b < blocks {
                assert((b + 1) * per <= blocks * per) by (nonlinear_arith)
                    requires
                        b + 1 <= blocks,
                        0 <= per,
                ;
            }
        }
        while k < in_block
            invariant
                CHUNK_LEN > 0,
                CHUNK_LEN <= input@.len(),
                len == input@.len(),
                l == CHUNK_LEN as int,
                per == 64int / l,
                blocks == len as int / 64,
                tail == (len as int % 64) / l,
                tail <= per,
                total == blocks * per + tail,
                total == chunk_count(len as int, l),
                len as int == 64 * blocks + len as int % 64,
                b <= blocks,
                in_block == if b < blocks {
                    per
                } else {
                    tail
                },
                k <= in_block,
                b * per + in_block <= total,
                encoder_state(input@, l, output@, m@, count as int, last as int, b * per + k),
            decreases in_block - k,
        {
            proof {
                assert(per > 0);
                assert(l <= 64) by {
                    if l > 64 {
                        assert(64int / l == 0) by (nonlinear_arith)
                            requires
                                l > 64,
                        ;
                    }
                }
                lemma_chunk_start(l, b as int, k as int);
                lemma_fundamental_div_mod(64, l);
                lemma_fundamental_div_mod(len as int % 64, l);
                assert((k + 1) * l <= in_block * l) by (nonlinear_arith)
                    requires
                        k + 1 <= in_block,
                        0 < l,
                ;
                assert((k + 1) * l == k * l + l) by (nonlinear_arith);
                assert(b * 64 <= blocks * 64) by (nonlinear_arith)
                    requires
                        b <= blocks,
                ;
                assert(0 <= k * l) by (nonlinear_arith)
                    requires
                        0 <= k,
                        0 < l,
                ;
                if b < blocks {
                    assert((b + 1) * 64 <= blocks * 64) by (nonlinear_arith)
                        requires
                            b + 1 <= blocks,
                    ;
                }
            }
            let start: usize = b * BLOCK_LEN + k * CHUNK_LEN;
            let records = absorb_chunk(
                input,
                &mut output,
                &mut count,
                &mut last,
                start,
                CHUNK_LEN,
                m,
                Ghost(b * per + k),
            );
            m = records;
            k += 1;
        }
        b += 1;
    }
    let ghost before = output@;
    let ghost open_chunk = input@.subrange(last as int, last + l);
    push_record(&mut output, count, input, last, CHUNK_LEN);
    proof {
        let all = chunks(input@, l);
        let records = m@ + 1;
        lemma_new_record(before, count, open_chunk, l, m@);
        lemma_expand_stable(before, seq![count] + open_chunk, l, m@ as nat);
        lemma_records_stable(before, seq![count] + open_chunk, l, m@);
        assert(before + seq![count] + open_chunk =~= before + (seq![count] + open_chunk));
        assert(all.take(total) =~= all);
        assert(output@.len() == records * (l + 1));
        lemma_fundamental_div_mod_converse(output@.len() as int, l + 1, records, 0);
        assert(record_count(output@, l) == records);
        assert forall|j: int| 0 <= j < records - 1 implies record_chunk(output@, l, j)
            != #[trigger] record_chunk(output@, l, j + 1) || record_run(output@, l, j) == 255 by {
            if j < m@ - 1 {
                assert(record_chunk(before, l, j) != record_chunk(before, l, j + 1) || record_run(
                    before,
                    l,
                    j,
                ) == 255);
            }
        }
        if total == 0 {
            assert(before =~= Seq::<u8>::empty());
            assert(output@ =~= seq![0u8] + input@.subrange(0, l));
        }
    }
    output
}

} // verus!
