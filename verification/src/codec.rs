//! Decoding of the wire stream — raw little-endian 16-bit signed mono
//! samples, read in fixed whole-sample chunks — and the first-order
//! smoothing applied to every decoded sample, with its carry across fills.

use vstd::prelude::*;

verus! {

/// Bytes one read fill asks the socket for.
pub const READ_CHUNK_BYTES: usize = 3840;

/// Wire width of one sample, in bytes.
pub const SAMPLE_WIDTH_BYTES: usize = 2;

/// Law: a read fill always covers a whole number of samples, so decoding
/// never reads a partial sample.
pub proof fn lemma_chunk_holds_whole_samples()
    ensures
        READ_CHUNK_BYTES as int % SAMPLE_WIDTH_BYTES as int == 0,
{
}

/// Value of one sample from its two wire bytes: low byte first, the high
/// byte weighted by 256, in two's complement.
pub open spec fn sample_of_bytes(lo: u8, hi: u8) -> int {
    if hi < 128 {
        lo + 256 * hi
    } else {
        lo + 256 * hi - 65536
    }
}

/// All samples of a byte chunk, in wire order.
pub open spec fn decode_seq(bytes: Seq<u8>) -> Seq<i16> {
    Seq::new((bytes.len() / 2) as nat, |i: int| sample_of_bytes(bytes[2 * i], bytes[2 * i + 1]) as i16)
}

/// Halving that truncates towards zero, as the platform's signed integer
/// division computes it.
pub open spec fn half_trunc(v: int) -> int {
    if v >= 0 {
        v / 2
    } else {
        -((-v) / 2)
    }
}

/// One smoothing step: the truncated mean of the incoming sample and the
/// previous output.
pub open spec fn smooth_step(x: i16, prev: i16) -> int {
    half_trunc(x + prev)
}

/// A smoothing step always fits back into a sample.
pub proof fn lemma_smooth_step_fits(x: i16, prev: i16)
    ensures
        i16::MIN <= smooth_step(x, prev) <= i16::MAX,
{
}

/// The smoothed output of a chunk: each output is the truncated mean of the
/// incoming sample and the previous output, the carry standing in for the
/// output before the first.
pub open spec fn smooth_seq(xs: Seq<i16>, carry: i16) -> Seq<i16>
    decreases xs.len(),
{
    if xs.len() == 0 {
        Seq::empty()
    } else {
        let y0 = smooth_step(xs[0], carry) as i16;
        seq![y0] + smooth_seq(xs.drop_first(), y0)
    }
}

/// The carry a chunk leaves for the next one: its last output, or the carry
/// unchanged if the chunk was empty.
pub open spec fn carry_after(xs: Seq<i16>, carry: i16) -> i16 {
    if xs.len() == 0 {
        carry
    } else {
        smooth_seq(xs, carry).last()
    }
}

/// Smoothing keeps the number of samples.
pub proof fn lemma_smooth_seq_len(xs: Seq<i16>, carry: i16)
    ensures
        smooth_seq(xs, carry).len() == xs.len(),
    decreases xs.len(),
{
    if xs.len() > 0 {
        let y0 = smooth_step(xs[0], carry) as i16;
        lemma_smooth_seq_len(xs.drop_first(), y0);
    }
}

/// Law (smoothing recurrence): with carry `c`, the outputs obey
/// `y[0] == (x[0] + c) / 2` and `y[i] == (x[i] + y[i-1]) / 2` for `i >= 1`,
/// with division truncating towards zero.
pub proof fn lemma_smoothing_recurrence(xs: Seq<i16>, carry: i16)
    ensures
        smooth_seq(xs, carry).len() == xs.len(),
        xs.len() > 0 ==> smooth_seq(xs, carry)[0] == smooth_step(xs[0], carry) as i16,
        forall|i: int|
            1 <= i < xs.len() ==> #[trigger] smooth_seq(xs, carry)[i] == smooth_step(
                xs[i],
                smooth_seq(xs, carry)[i - 1],
            ) as i16,
    decreases xs.len(),
{
    lemma_smooth_seq_len(xs, carry);
    if xs.len() > 0 {
        let y0 = smooth_step(xs[0], carry) as i16;
        let tail = smooth_seq(xs.drop_first(), y0);
        lemma_smoothing_recurrence(xs.drop_first(), y0);
        assert forall|i: int|
            1 <= i < xs.len() implies #[trigger] smooth_seq(xs, carry)[i] == smooth_step(
            xs[i],
            smooth_seq(xs, carry)[i - 1],
        ) as i16 by {
            assert(smooth_seq(xs, carry)[i] == tail[i - 1]);
            assert(xs.drop_first()[i - 1] == xs[i]);
            if i == 1 {
                assert(tail[0] == smooth_step(xs.drop_first()[0], y0) as i16);
            } else {
                assert(tail[i - 1] == smooth_step(xs.drop_first()[i - 1], tail[i - 2]) as i16);
                assert(smooth_seq(xs, carry)[i - 1] == tail[i - 2]);
            }
        };
    }
}

/// Appending one sample extends the smoothed output by one step taken from
/// the chunk's carry.
proof fn lemma_smooth_seq_snoc(xs: Seq<i16>, x: i16, carry: i16)
    ensures
        smooth_seq(xs.push(x), carry) == smooth_seq(xs, carry).push(
            smooth_step(x, carry_after(xs, carry)) as i16,
        ),
    decreases xs.len(),
{
    if xs.len() == 0 {
        let y0 = smooth_step(x, carry) as i16;
        assert(xs.push(x).len() == 1);
        assert(xs.push(x)[0] == x);
        assert(xs.push(x).drop_first() =~= Seq::<i16>::empty());
        assert(smooth_seq(Seq::<i16>::empty(), y0) =~= Seq::<i16>::empty());
        assert(smooth_seq(xs.push(x), carry) =~= seq![y0] + Seq::<i16>::empty());
        assert(smooth_seq(xs, carry) =~= Seq::<i16>::empty());
        assert(carry_after(xs, carry) == carry);
        assert(smooth_seq(xs.push(x), carry) =~= smooth_seq(xs, carry).push(
            smooth_step(x, carry_after(xs, carry)) as i16,
        ));
    } else {
        let y0 = smooth_step(xs[0], carry) as i16;
        assert(xs.push(x)[0] == xs[0]);
        assert(xs.push(x).drop_first() =~= xs.drop_first().push(x));
        lemma_smooth_seq_snoc(xs.drop_first(), x, y0);
        lemma_smooth_seq_len(xs.drop_first(), y0);
        assert(carry_after(xs, carry) == carry_after(xs.drop_first(), y0));
        assert(smooth_seq(xs.push(x), carry) =~= smooth_seq(xs, carry).push(
            smooth_step(x, carry_after(xs, carry)) as i16,
        ));
    }
}

/// Law: a session that starts with carry 0 and receives an all-zero wire
/// stream produces only zero samples, and its carry stays 0.
pub proof fn lemma_zero_wire_stream(bytes: Seq<u8>)
    requires
        forall|i: int| 0 <= i < bytes.len() ==> bytes[i] == 0,
    ensures
        forall|i: int|
            0 <= i < smooth_seq(decode_seq(bytes), 0).len() ==> smooth_seq(decode_seq(bytes), 0)[i]
                == 0,
        carry_after(decode_seq(bytes), 0) == 0,
{
    let xs = decode_seq(bytes);
    assert(forall|i: int| 0 <= i < xs.len() ==> xs[i] == 0) by {
        assert(forall|i: int|
            0 <= i < xs.len() ==> #[trigger] xs[i] == sample_of_bytes(
                bytes[2 * i],
                bytes[2 * i + 1],
            ) as i16);
    };
    lemma_zero_samples(xs);
}

/// All-zero samples smooth, from carry 0, to all-zero outputs.
proof fn lemma_zero_samples(xs: Seq<i16>)
    requires
        forall|i: int| 0 <= i < xs.len() ==> xs[i] == 0,
    ensures
        forall|i: int| 0 <= i < smooth_seq(xs, 0).len() ==> smooth_seq(xs, 0)[i] == 0,
        carry_after(xs, 0) == 0,
    decreases xs.len(),
{
    lemma_smooth_seq_len(xs, 0);
    if xs.len() > 0 {
        assert(smooth_step(xs[0], 0) == 0);
        lemma_zero_samples(xs.drop_first());
        lemma_smooth_seq_len(xs.drop_first(), 0);
        assert(forall|i: int|
            1 <= i < smooth_seq(xs, 0).len() ==> #[trigger] smooth_seq(xs, 0)[i] == smooth_seq(
                xs.drop_first(),
                0,
            )[i - 1]);
    }
}

/// Decodes one little-endian sample from its two wire bytes.
pub fn decode_sample(lo: u8, hi: u8) -> (s: i16)
    ensures
        s as int == sample_of_bytes(lo, hi),
{
    let v: u32 = lo as u32 + 256 * (hi as u32);
    if v < 32768 {
        v as i16
    } else {
        ((v as i32) - 65536) as i16
    }
}

/// Decodes a whole chunk, in wire order.
pub fn decode_chunk(bytes: &Vec<u8>) -> (xs: Vec<i16>)
    requires
        bytes@.len() % 2 == 0,
    ensures
        xs@ == decode_seq(bytes@),
{
    let n = bytes.len() / 2;
    let mut xs: Vec<i16> = Vec::new();
    let mut i: usize = 0;
    while i < n
        invariant
            bytes@.len() % 2 == 0,
            bytes@.len() <= usize::MAX,
            n == bytes@.len() / 2,
            i <= n,
            xs@.len() == i as int,
            forall|k: int| 0 <= k < i ==> xs@[k] == decode_seq(bytes@)[k],
        decreases n - i,
    {
        let s = decode_sample(bytes[2 * i], bytes[2 * i + 1]);
        xs.push(s);
        i += 1;
    }
    assert(xs@ =~= decode_seq(bytes@));
    xs
}

/// Smooths a decoded chunk with the carry from the previous fill, returning
/// the outputs and the carry for the next fill.
pub fn smooth_chunk(xs: &Vec<i16>, carry: i16) -> (r: (Vec<i16>, i16))
    ensures
        r.0@ == smooth_seq(xs@, carry),
        r.1 == carry_after(xs@, carry),
{
    let mut ys: Vec<i16> = Vec::new();
    let mut cur: i16 = carry;
    let mut i: usize = 0;
    while i < xs.len()
        invariant
            i <= xs@.len(),
            ys@ == smooth_seq(xs@.take(i as int), carry),
            cur == carry_after(xs@.take(i as int), carry),
        decreases xs@.len() - i,
    {
        let x = xs[i];
        let sum: i32 = x as i32 + cur as i32;
        let y: i16 = if sum >= 0 {
            ((sum as u32) / 2) as i16
        } else {
            (-((((-sum) as u32) / 2) as i32)) as i16
        };
        proof {
            assert(y as int == smooth_step(x, cur));
            lemma_smooth_seq_snoc(xs@.take(i as int), x, carry);
            assert(xs@.take(i + 1) =~= xs@.take(i as int).push(x));
            lemma_smooth_seq_len(xs@.take(i + 1), carry);
        }
        ys.push(y);
        cur = y;
        i += 1;
    }
    proof {
        assert(xs@.take(xs@.len() as int) =~= xs@);
    }
    (ys, cur)
}

/// Decodes and smooths one read fill: what a seek cycle feeds the sample
/// buffer, and the carry it leaves for the next fill.
pub fn process_chunk(bytes: &Vec<u8>, carry: i16) -> (r: (Vec<i16>, i16))
    requires
        bytes@.len() % 2 == 0,
    ensures
        r.0@ == smooth_seq(decode_seq(bytes@), carry),
        r.1 == carry_after(decode_seq(bytes@), carry),
{
    let xs = decode_chunk(bytes);
    smooth_chunk(&xs, carry)
}

} // verus!
