//! Mono amplitude samples in fixed point.
//!
//! A sample's amplitude is `raw / SAMPLE_SCALE`, with full scale at one.
//! Decoded PCM values of every supported native representation are
//! normalized into this range by their full-scale divisor, and frames of
//! interleaved channels are downmixed by arithmetic mean.

use vstd::prelude::*;

verus! {

use vstd::arithmetic::div_mod::{
    lemma_fundamental_div_mod,
    lemma_div_multiples_vanish_fancy,
    lemma_div_is_ordered,
    lemma_multiply_divide_le,
};
use vstd::arithmetic::div_mod::lemma_div_pos_is_pos;
use vstd::arithmetic::mul::{
    lemma_mul_inequality,
    lemma_mul_is_distributive_add_other_way,
    lemma_mul_nonnegative,
};

/// The fixed-point representation of an amplitude of one (2^31).
pub const SAMPLE_SCALE: i64 = 2147483648;

/// One mono sample; its amplitude is `raw / SAMPLE_SCALE`.
#[derive(Clone, Copy, Debug, PartialEq, Eq, Structural)]
pub struct Sample {
    /// Fixed-point amplitude, in `[-SAMPLE_SCALE, SAMPLE_SCALE]` when valid.
    pub raw: i64,
}

impl Sample {
    /// A sample is valid when its amplitude lies within full scale.
    pub open spec fn valid(self) -> bool {
        -SAMPLE_SCALE <= self.raw <= SAMPLE_SCALE
    }

    /// The zero-amplitude sample.
    pub fn silence() -> (s: Sample)
        ensures
            s.raw == 0,
            s.valid(),
    {
        Sample { raw: 0 }
    }

    /// Clamps an arbitrary fixed-point value into full scale.
    pub fn clamped(raw: i64) -> (s: Sample)
        ensures
            s.raw == if raw < -SAMPLE_SCALE {
                -SAMPLE_SCALE as int
            } else if raw > SAMPLE_SCALE {
                SAMPLE_SCALE as int
            } else {
                raw as int
            },
            s.valid(),
    {
        if raw < -SAMPLE_SCALE {
            Sample { raw: -SAMPLE_SCALE }
        } else if raw > SAMPLE_SCALE {
            Sample { raw: SAMPLE_SCALE }
        } else {
            Sample { raw }
        }
    }
}

/// Normalized amplitude of an unsigned 8-bit PCM value (full scale 255).
pub open spec fn norm_u8_spec(v: u8) -> int {
    v * SAMPLE_SCALE / 255
}

/// Normalized amplitude of a signed 16-bit PCM value (full scale 32768).
pub open spec fn norm_i16_spec(v: i16) -> int {
    v * 65536
}

/// Normalized amplitude of a signed 24-bit PCM value (full scale 8388608).
pub open spec fn norm_i24_spec(v: i32) -> int {
    v * 256
}

/// Normalized amplitude of a signed 32-bit PCM value (full scale 2^31).
pub open spec fn norm_i32_spec(v: i32) -> int {
    v as int
}

/// Normalizes an unsigned 8-bit PCM value.
pub fn normalize_u8(v: u8) -> (s: Sample)
    ensures
        s.raw == norm_u8_spec(v),
        0 <= s.raw <= SAMPLE_SCALE,
        s.valid(),
{
    proof {
        assert(v * SAMPLE_SCALE <= 255 * SAMPLE_SCALE) by {
            lemma_mul_inequality(v as int, 255, SAMPLE_SCALE as int);
        }
    }
    let num: u64 = (v as u64) * (SAMPLE_SCALE as u64);
    let q: u64 = num / 255;
    proof {
        lemma_multiply_divide_le(v * SAMPLE_SCALE, 255, SAMPLE_SCALE as int);
    }
    Sample { raw: q as i64 }
}

/// Normalizes a signed 16-bit PCM value.
pub fn normalize_i16(v: i16) -> (s: Sample)
    ensures
        s.raw == norm_i16_spec(v),
        s.valid(),
{
    Sample { raw: (v as i64) * 65536 }
}

/// Normalizes a signed 24-bit PCM value (carried in an `i32`).
pub fn normalize_i24(v: i32) -> (s: Sample)
    requires
        -8388608 <= v <= 8388607,
    ensures
        s.raw == norm_i24_spec(v),
        s.valid(),
{
    Sample { raw: (v as i64) * 256 }
}

/// Normalizes a signed 32-bit PCM value.
pub fn normalize_i32(v: i32) -> (s: Sample)
    ensures
        s.raw == norm_i32_spec(v),
        s.valid(),
{
    Sample { raw: v as i64 }
}

/// Every supported native PCM representation normalizes into full scale:
/// the resulting amplitude always lies within `[-SAMPLE_SCALE, SAMPLE_SCALE]`.
pub proof fn law_normalization_in_range()
    ensures
        forall|v: u8| 0 <= #[trigger] norm_u8_spec(v) <= SAMPLE_SCALE,
        forall|v: i16| -SAMPLE_SCALE <= #[trigger] norm_i16_spec(v) <= SAMPLE_SCALE,
        forall|v: i32|
            -8388608 <= v <= 8388607 ==> -SAMPLE_SCALE <= #[trigger] norm_i24_spec(v)
                <= SAMPLE_SCALE,
        forall|v: i32| -SAMPLE_SCALE <= #[trigger] norm_i32_spec(v) <= SAMPLE_SCALE,
{
    assert forall|v: u8| 0 <= #[trigger] norm_u8_spec(v) <= SAMPLE_SCALE by {
        lemma_mul_nonnegative(v as int, SAMPLE_SCALE as int);
        lemma_div_pos_is_pos(v * SAMPLE_SCALE, 255);
        lemma_mul_inequality(v as int, 255, SAMPLE_SCALE as int);
        lemma_multiply_divide_le(v * SAMPLE_SCALE, 255, SAMPLE_SCALE as int);
    }
}

/// Sum of the fixed-point amplitudes of a sequence of samples.
pub open spec fn raw_sum(s: Seq<Sample>) -> int
    decreases s.len(),
{
    if s.len() == 0 {
        0
    } else {
        raw_sum(s.drop_last()) + s.last().raw
    }
}

/// The sum of `n` valid samples lies within `n` times full scale.
pub proof fn lemma_raw_sum_bounded(s: Seq<Sample>)
    requires
        forall|i: int| 0 <= i < s.len() ==> #[trigger] s[i].valid(),
    ensures
        -(s.len() * SAMPLE_SCALE) <= raw_sum(s) <= s.len() * SAMPLE_SCALE,
    decreases s.len(),
{
    if s.len() > 0 {
        assert forall|i: int| 0 <= i < s.drop_last().len() implies #[trigger] s.drop_last()[i].valid() by {
            assert(s.drop_last()[i] == s[i]);
        }
        lemma_raw_sum_bounded(s.drop_last());
        assert(s.last() == s[s.len() - 1]);
        assert(s[s.len() - 1].valid());
        assert((s.len() - 1) * SAMPLE_SCALE + SAMPLE_SCALE == s.len() * SAMPLE_SCALE)
            by (nonlinear_arith);
    }
}

/// The mono stream obtained by averaging each interleaved frame of
/// `channels` samples.
pub open spec fn downmix_seq(data: Seq<Sample>, channels: int) -> Seq<Sample> {
    Seq::new(
        (data.len() as int / channels) as nat,
        |f: int|
            Sample {
                raw: (raw_sum(data.subrange(f * channels, (f + 1) * channels)) / channels) as i64,
            },
    )
}

/// Downmixes a whole interleaved buffer to mono, one sample per frame of
/// `channels` samples, in order; a trailing partial frame is dropped.
pub fn downmix_frames(data: &Vec<Sample>, channels: usize) -> (r: Vec<Sample>)
    requires
        1 <= channels <= 65536,
        forall|i: int| 0 <= i < data@.len() ==> #[trigger] data@[i].valid(),
    ensures
        r@ == downmix_seq(data@, channels as int),
        forall|i: int| 0 <= i < r@.len() ==> #[trigger] r@[i].valid(),
{
    let ghost ch = channels as int;
    let ghost dmx = downmix_seq(data@, ch);
    let dlen: usize = data.len();
    let frames: usize = dlen / channels;
    proof {
        lemma_fundamental_div_mod(dlen as int, ch);
        assert(frames * ch <= dlen as int) by (nonlinear_arith)
            requires
                dlen as int == ch * frames + (dlen as int % ch),
                0 <= dlen as int % ch,
        ;
    }
    let mut out: Vec<Sample> = Vec::new();
    let mut f: usize = 0;
    while f < frames
        invariant
            0 <= f <= frames,
            1 <= channels <= 65536,
            ch == channels as int,
            dlen == data@.len(),
            frames * ch <= dlen as int,
            dmx == downmix_seq(data@, ch),
            dmx.len() == frames,
            forall|i: int| 0 <= i < data@.len() ==> #[trigger] data@[i].valid(),
            out@ == dmx.subrange(0, f as int),
            forall|i: int| 0 <= i < out@.len() ==> #[trigger] out@[i].valid(),
        decreases frames - f,
    {
        proof {
            assert((f + 1) * ch == f * ch + ch) by {
                lemma_mul_is_distributive_add_other_way(ch, f as int, 1);
            }
            assert((f + 1) * ch <= frames * ch) by {
                lemma_mul_inequality(f + 1, frames as int, ch);
            }
        }
        let base: usize = f * channels;
        let mut group: Vec<Sample> = Vec::new();
        let mut c: usize = 0;
        while c < channels
            invariant
                0 <= c <= channels,
                ch == channels as int,
                base == f * ch,
                dlen == data@.len(),
                base + ch <= dlen,
                forall|i: int| 0 <= i < data@.len() ==> #[trigger] data@[i].valid(),
                group@ == data@.subrange(base as int, base + c),
            decreases channels - c,
        {
            let s = data[base + c];
            group.push(s);
            proof {
                assert(data@.subrange(base as int, base + c + 1) =~= data@.subrange(
                    base as int,
                    base + c,
                ).push(data@[base + c]));
            }
            c = c + 1;
        }
        let mono = downmix(&group);
        proof {
            assert(group@ == data@.subrange(f * ch, (f + 1) * ch));
            assert(dmx[f as int] == mono);
            assert(dmx.subrange(0, f + 1) =~= dmx.subrange(0, f as int).push(dmx[f as int]));
        }
        out.push(mono);
        f = f + 1;
    }
    proof {
        assert(dmx.subrange(0, frames as int) =~= dmx);
    }
    out
}

/// Downmixes one frame of interleaved channel samples to mono by
/// arithmetic mean (rounded toward negative infinity).
pub fn downmix(frame: &Vec<Sample>) -> (s: Sample)
    requires
        1 <= frame@.len() <= 65536,
        forall|i: int| 0 <= i < frame@.len() ==> #[trigger] frame@[i].valid(),
    ensures
        s.raw == raw_sum(frame@) / frame@.len() as int,
        s.valid(),
{
    let ghost all = frame@;
    let n: usize = frame.len();
    // Accumulate the offset sum so that the running value stays nonnegative.
    let mut acc: u64 = 0;
    let mut i: usize = 0;
    while i < n
        invariant
            0 <= i <= n == all.len() <= 65536,
            frame@ == all,
            forall|j: int| 0 <= j < all.len() ==> #[trigger] all[j].valid(),
            acc == raw_sum(all.take(i as int)) + i * SAMPLE_SCALE,
            acc <= i * (2 * SAMPLE_SCALE),
        decreases n - i,
    {
        proof {
            lemma_raw_sum_bounded(all.take(i as int));
            assert(all[i as int].valid());
            assert(all.take(i + 1).drop_last() =~= all.take(i as int));
            assert(all.take(i + 1).last() == all[i as int]);
            assert(acc <= 65535 * (2 * SAMPLE_SCALE));
        }
        let v: i64 = frame[i].raw;
        acc = acc + ((v + SAMPLE_SCALE) as u64);
        i = i + 1;
    }
    proof {
        assert(all.take(n as int) =~= all);
        lemma_raw_sum_bounded(all);
    }
    let q: u64 = acc / (n as u64);
    let ghost total = raw_sum(all);
    proof {
        // acc == total + n * SAMPLE_SCALE; dividing by n shifts the mean
        // up by exactly SAMPLE_SCALE.
        lemma_fundamental_div_mod(total, n as int);
        let ghost tq = total / n as int;
        let ghost tr = total % n as int;
        assert(acc == (n as int) * (tq + SAMPLE_SCALE) + tr) by {
            assert((n as int) * (tq + SAMPLE_SCALE) == (n as int) * tq + (n as int) * SAMPLE_SCALE)
                by (nonlinear_arith);
        }
        lemma_div_multiples_vanish_fancy(tq + SAMPLE_SCALE, tr, n as int);
        assert(acc as int / n as int == tq + SAMPLE_SCALE);
        // The mean of full-scale-bounded values is full-scale bounded.
        lemma_div_is_ordered(-((n as int) * SAMPLE_SCALE), total, n as int);
        lemma_div_is_ordered(total, (n as int) * SAMPLE_SCALE, n as int);
        assert(-((n as int) * SAMPLE_SCALE) == (n as int) * (-SAMPLE_SCALE as int))
            by (nonlinear_arith);
        lemma_div_multiples_vanish_fancy(-SAMPLE_SCALE as int, 0, n as int);
        lemma_div_multiples_vanish_fancy(SAMPLE_SCALE as int, 0, n as int);
        assert((n as int) * SAMPLE_SCALE / n as int == SAMPLE_SCALE);
        assert(-SAMPLE_SCALE <= tq <= SAMPLE_SCALE);
    }
    Sample { raw: (q as i64) - SAMPLE_SCALE }
}

} // verus!
