//! Run-length encoding: each run of equal bytes, up to 255 long, becomes a
//! pair (length, byte).

use vstd::prelude::*;

verus! {

/// Longest run that one pair encodes.
pub const MAX_RUN: usize = 255;

/// `k` copies of `b`.
pub open spec fn repeat_byte(b: u8, k: nat) -> Seq<u8> {
    Seq::new(k, |_i: int| b)
}

/// The bytes that an encoding stands for: each full pair (count, byte) in
/// turn gives `count` copies of `byte`; a lone trailing byte gives nothing.
pub open spec fn rle_decode(c: Seq<u8>) -> Seq<u8>
    decreases c.len(),
{
    if c.len() < 2 {
        Seq::empty()
    } else {
        repeat_byte(c[1], c[0] as nat) + rle_decode(c.subrange(2, c.len() as int))
    }
}

/// Length of the run that starts `s`, counted on from `k` already matched,
/// and stopped at `MAX_RUN`.
pub open spec fn run_len_from(s: Seq<u8>, k: nat) -> nat
    decreases MAX_RUN - k,
{
    if k < s.len() && k < MAX_RUN && s[k as int] == s[0] {
        run_len_from(s, k + 1)
    } else {
        k
    }
}

/// Length of the run that starts a non-empty `s`, at most `MAX_RUN`.
pub open spec fn run_len(s: Seq<u8>) -> nat {
    run_len_from(s, 1)
}

/// The greedy encoding: the longest run (up to `MAX_RUN`) at the front
/// becomes one pair, and the rest is encoded the same way.
pub open spec fn rle_encode(s: Seq<u8>) -> Seq<u8>
    decreases s.len(),
{
    if s.len() == 0 {
        Seq::empty()
    } else {
        let k = run_len(s);
        if 1 <= k <= s.len() {
            seq![k as u8, s[0]] + rle_encode(s.subrange(k as int, s.len() as int))
        } else {
            Seq::empty()
        }
    }
}

proof fn lemma_run_len_from(s: Seq<u8>, k: nat)
    requires
        1 <= k <= s.len(),
        k <= MAX_RUN,
        forall|j: int| 0 <= j < k ==> #[trigger] s[j] == s[0],
    ensures
        k <= run_len_from(s, k) <= s.len(),
        run_len_from(s, k) <= MAX_RUN,
        forall|j: int| 0 <= j < run_len_from(s, k) ==> #[trigger] s[j] == s[0],
    decreases MAX_RUN - k,
{
    if k < s.len() && k < MAX_RUN && s[k as int] == s[0] {
        lemma_run_len_from(s, k + 1);
    }
}

/// The run at the front of a non-empty sequence is between 1 and
/// `MAX_RUN` long and made of its first byte.
proof fn lemma_run_len(s: Seq<u8>)
    requires
        s.len() > 0,
    ensures
        1 <= run_len(s) <= s.len(),
        run_len(s) <= MAX_RUN,
        forall|j: int| 0 <= j < run_len(s) ==> #[trigger] s[j] == s[0],
{
    lemma_run_len_from(s, 1);
}

/// Decoding an encoding that starts with a full pair.
proof fn lemma_decode_pair(a: u8, b: u8, rest: Seq<u8>)
    ensures
        rle_decode(seq![a, b] + rest) == repeat_byte(b, a as nat) + rle_decode(rest),
{
    let c = seq![a, b] + rest;
    assert(c.subrange(2, c.len() as int) =~= rest);
}

/// Decoding undoes encoding.
pub proof fn lemma_decode_encode(s: Seq<u8>)
    ensures
        rle_decode(rle_encode(s)) == s,
    decreases s.len(),
{
    if s.len() > 0 {
        lemma_run_len(s);
        let k = run_len(s);
        let rest = s.subrange(k as int, s.len() as int);
        lemma_decode_encode(rest);
        lemma_decode_pair(k as u8, s[0], rle_encode(rest));
        assert(repeat_byte(s[0], k) =~= s.subrange(0, k as int));
        assert(s.subrange(0, k as int) + rest =~= s);
    }
}

/// An encoding is a sequence of full pairs, so it has even length.
pub proof fn lemma_encode_even(s: Seq<u8>)
    ensures
        rle_encode(s).len() % 2 == 0,
    decreases s.len(),
{
    if s.len() > 0 {
        lemma_run_len(s);
        lemma_encode_even(s.subrange(run_len(s) as int, s.len() as int));
    }
}

/// Decoding distributes over concatenation where the first part consists
/// of full pairs.
pub proof fn lemma_decode_concat(a: Seq<u8>, b: Seq<u8>)
    requires
        a.len() % 2 == 0,
    ensures
        rle_decode(a + b) == rle_decode(a) + rle_decode(b),
    decreases a.len(),
{
    if a.len() == 0 {
        assert(a + b =~= b);
    } else {
        let rest = a.subrange(2, a.len() as int);
        lemma_decode_concat(rest, b);
        assert(a =~= seq![a[0], a[1]] + rest);
        assert(a + b =~= seq![a[0], a[1]] + (rest + b));
        lemma_decode_pair(a[0], a[1], rest + b);
        lemma_decode_pair(a[0], a[1], rest);
    }
}

/// Encodes `data` run by run, each run of up to `MAX_RUN` equal bytes as the
/// pair (length, byte).
pub fn compress_rle(data: &[u8]) -> (r: Vec<u8>)
    ensures
        r@ == rle_encode(data@),
        rle_decode(r@) == data@,
{
    let n = data.len();
    let mut out: Vec<u8> = Vec::new();
    let mut i: usize = 0;
    assert(data@.subrange(0, n as int) =~= data@);
    assert(out@ + rle_encode(data@) =~= rle_encode(data@));
    while i < n
        invariant
            n == data@.len(),
            i <= n,
            out@ + rle_encode(data@.subrange(i as int, n as int)) == rle_encode(data@),
        decreases n - i,
    {
        let ghost rest = data@.subrange(i as int, n as int);
        let current = data[i];
        let mut count: usize = 1;
        while i + count < n && data[i + count] == current && count < MAX_RUN
            invariant
                n == data@.len(),
                i < n,
                1 <= count <= MAX_RUN,
                i + count <= n,
                rest == data@.subrange(i as int, n as int),
                current == rest[0],
                run_len_from(rest, count as nat) == run_len(rest),
            decreases MAX_RUN - count,
        {
            assert(rest[count as int] == data@[i + count]);
            count += 1;
        }
        proof {
            if i + count < n {
                assert(rest[count as int] == data@[i + count]);
            }
            lemma_run_len(rest);
            assert(rest.subrange(count as int, rest.len() as int) =~= data@.subrange(
                (i + count) as int,
                n as int,
            ));
        }
        let ghost before = out@;
        out.push(count as u8);
        out.push(current);
        assert(out@ =~= before + seq![count as u8, current]);
        i += count;
        assert(out@ + rle_encode(data@.subrange(i as int, n as int)) =~= before + rle_encode(rest));
    }
    proof {
        assert(data@.subrange(n as int, n as int) =~= Seq::<u8>::empty());
        assert(out@ + Seq::<u8>::empty() =~= out@);
        lemma_decode_encode(data@);
    }
    out
}

/// Expands pairs (count, byte) into `count` copies of `byte`; a lone
/// trailing byte is ignored.
pub fn decompress_rle(compressed: &[u8]) -> (r: Vec<u8>)
    ensures
        r@ == rle_decode(compressed@),
{
    let n = compressed.len();
    let mut out: Vec<u8> = Vec::new();
    let mut i: usize = 0;
    assert(compressed@.subrange(0, n as int) =~= compressed@);
    assert(out@ + rle_decode(compressed@) =~= rle_decode(compressed@));
    while n - i >= 2
        invariant
            n == compressed@.len(),
            i <= n,
            out@ + rle_decode(compressed@.subrange(i as int, n as int)) == rle_decode(
                compressed@,
            ),
        decreases n - i,
    {
        let ghost rest = compressed@.subrange(i as int, n as int);
        let count = compressed[i];
        let value = compressed[i + 1];
        let ghost before = out@;
        let mut j: u8 = 0;
        while j < count
            invariant
                out@ == before + repeat_byte(value, j as nat),
                j <= count,
            decreases count - j,
        {
            out.push(value);
            j += 1;
            assert(out@ =~= before + repeat_byte(value, j as nat));
        }
        proof {
            assert(rest.subrange(2, rest.len() as int) =~= compressed@.subrange(
                i + 2,
                n as int,
            ));
            assert(rest[0] == count && rest[1] == value);
        }
        i += 2;
        assert(before + rle_decode(rest) =~= out@ + rle_decode(
            compressed@.subrange(i as int, n as int),
        ));
    }
    proof {
        let rest = compressed@.subrange(i as int, n as int);
        assert(rest.len() < 2);
        assert(out@ + Seq::<u8>::empty() =~= out@);
    }
    out
}

/// Appends the bytes of `src` to `out`.
pub fn append_bytes(out: &mut Vec<u8>, src: &Vec<u8>)
    ensures
        final(out)@ == old(out)@ + src@,
{
    let ghost before = out@;
    let mut j: usize = 0;
    while j < src.len()
        invariant
            j <= src@.len(),
            out@ == before + src@.subrange(0, j as int),
        decreases src@.len() - j,
    {
        out.push(src[j]);
        j += 1;
        assert(out@ =~= before + src@.subrange(0, j as int));
    }
    assert(src@.subrange(0, src@.len() as int) =~= src@);
}

/// Concatenates encodings made chunk by chunk; the result decodes to the
/// chunks' data, in order.
pub fn concat_chunks(chunks: &Vec<Vec<u8>>) -> (r: Vec<u8>)
    ensures
        r@ == flatten(chunks@),
{
    let mut out: Vec<u8> = Vec::new();
    let mut i: usize = 0;
    while i < chunks.len()
        invariant
            i <= chunks@.len(),
            out@ == flatten(chunks@.subrange(0, i as int)),
        decreases chunks@.len() - i,
    {
        let chunk = &chunks[i];
        append_bytes(&mut out, chunk);
        proof {
            let next = chunks@.subrange(0, i + 1);
            assert(next.drop_last() =~= chunks@.subrange(0, i as int));
        }
        i += 1;
    }
    assert(chunks@.subrange(0, chunks@.len() as int) =~= chunks@);
    out
}

/// The bytes of all the vectors of `s`, one after the other.
pub open spec fn flatten(s: Seq<Vec<u8>>) -> Seq<u8>
    decreases s.len(),
{
    if s.len() == 0 {
        Seq::empty()
    } else {
        flatten(s.drop_last()) + s.last()@
    }
}

/// The data of every chunk, one after the other.
pub open spec fn flatten_data(s: Seq<Seq<u8>>) -> Seq<u8>
    decreases s.len(),
{
    if s.len() == 0 {
        Seq::empty()
    } else {
        flatten_data(s.drop_last()) + s.last()
    }
}

/// Encoding chunk by chunk and joining the encodings loses nothing: the
/// joined encoding decodes to the chunks' data, in order.
pub proof fn lemma_chunked_round_trip(compressed: Seq<Vec<u8>>, data: Seq<Seq<u8>>)
    requires
        compressed.len() == data.len(),
        forall|i: int| 0 <= i < data.len() ==> (#[trigger] compressed[i])@ == rle_encode(data[i]),
    ensures
        rle_decode(flatten(compressed)) == flatten_data(data),
        flatten(compressed).len() % 2 == 0,
    decreases data.len(),
{
    if data.len() > 0 {
        let c0 = compressed.drop_last();
        let d0 = data.drop_last();
        assert forall|i: int| 0 <= i < d0.len() implies (#[trigger] c0[i])@ == rle_encode(d0[i]) by {
            assert(c0[i] == compressed[i]);
        }
        lemma_chunked_round_trip(c0, d0);
        let last = compressed.last();
        assert(last == compressed[compressed.len() - 1]);
        lemma_encode_even(data.last());
        lemma_decode_encode(data.last());
        lemma_decode_concat(flatten(c0), last@);
    }
}

} // verus!
