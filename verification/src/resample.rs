//! Pull-based playback resampler.
//!
//! Converts a sample stream at a source rate to an output device's rate by
//! floor interpolation: output index `i` replays the input sample at
//! fractional position `i * src_rate / dst_rate`, rounded down. The
//! position is tracked exactly as an integer numerator over `dst_rate`, so
//! no drift accumulates. Once the input is drained the resampler is
//! permanently exhausted: every further output is silence, and the
//! one-shot exhaustion event fires exactly once.

use vstd::prelude::*;

verus! {

use vstd::arithmetic::div_mod::{
    lemma_fundamental_div_mod,
    lemma_fundamental_div_mod_converse,
    lemma_div_multiples_vanish_fancy,
    lemma_div_by_multiple,
    lemma_div_is_ordered,
};
use vstd::arithmetic::mul::lemma_mul_is_distributive_add_other_way;
use crate::channel::{Received, SampleChannel};
use crate::error::ConfigError;
use crate::sample::Sample;

/// Floor-interpolation position law. A resampler about to produce output
/// `i` (zero-based), having consumed `k` input samples, always satisfies
/// `pending + k * dst == dst + i * src`: it starts at `pending == dst`
/// with nothing consumed, consuming one sample moves `dst` from `pending`
/// to the consumed side, and each output adds `src`. This law says that
/// from such a state the pull phase (`pending / dst` further samples)
/// consumes input exactly up to index `i * src / dst` — so output `i`
/// replays the input sample at the floor of its fractional position — and
/// that the same relation holds again for output `i + 1`.
pub proof fn law_output_replays_floor_position(i: int, k: int, pending: int, src: int, dst: int)
    requires
        1 <= src,
        1 <= dst,
        0 <= i,
        0 <= k,
        0 <= pending,
        pending + k * dst == dst + i * src,
    ensures
        k + pending / dst == i * src / dst + 1,
        (pending % dst + src) + (k + pending / dst) * dst == dst + (i + 1) * src,
{
    let q = i * src / dst;
    let r = i * src % dst;
    lemma_fundamental_div_mod(i * src, dst);
    assert(pending == dst * (1 + q - k) + r) by (nonlinear_arith)
        requires
            pending + k * dst == dst + i * src,
            i * src == dst * q + r,
    ;
    lemma_div_multiples_vanish_fancy(1 + q - k, r, dst);
    assert(pending / dst == 1 + q - k);
    lemma_fundamental_div_mod(pending, dst);
    assert(pending % dst == r) by (nonlinear_arith)
        requires
            pending == dst * (pending / dst) + pending % dst,
            pending / dst == 1 + q - k,
            pending == dst * (1 + q - k) + r,
    ;
    assert((r + src) + (1 + q) * dst == dst + (i + 1) * src) by (nonlinear_arith)
        requires
            i * src == dst * q + r,
    ;
}

/// Re-samples a stream from a source rate to a target rate on demand.
pub struct Resampler {
    src_rate: u32,
    dst_rate: u32,
    acc: u64,
    left: Sample,
    exhausted: bool,
    notified: bool,
}

impl Resampler {
    /// The input stream's rate.
    pub closed spec fn src_rate(self) -> int {
        self.src_rate as int
    }

    /// The output device's rate.
    pub closed spec fn dst_rate(self) -> int {
        self.dst_rate as int
    }

    /// The pending input advance, as a numerator over `dst_rate`: the next
    /// output must step `pending / dst_rate` input samples forward.
    pub closed spec fn pending(self) -> int {
        self.acc as int
    }

    /// The input sample the interpolator currently sits on.
    pub closed spec fn current(self) -> Sample {
        self.left
    }

    /// Whether the input stream has been fully drained.
    pub closed spec fn exhausted(self) -> bool {
        self.exhausted
    }

    /// Whether the one-shot exhaustion event has already fired.
    pub closed spec fn notified(self) -> bool {
        self.notified
    }

    /// Rates are nonzero and the pending advance never exceeds one output
    /// step's worth of input plus the carry.
    pub open spec fn wf(self) -> bool {
        &&& 1 <= self.src_rate()
        &&& 1 <= self.dst_rate()
        &&& self.pending() <= self.dst_rate() + self.src_rate()
    }

    /// More input is required before the next output can be produced.
    pub open spec fn needs_source(self) -> bool {
        !self.exhausted() && self.pending() >= self.dst_rate()
    }

    /// Creates a resampler between two nonzero rates, positioned so that
    /// the first output replays the first input sample.
    pub fn new(src_rate: u32, dst_rate: u32) -> (r: Result<Resampler, ConfigError>)
        ensures
            r is Ok <==> src_rate >= 1 && dst_rate >= 1,
            r matches Ok(s) ==> s.wf() && s.src_rate() == src_rate && s.dst_rate() == dst_rate
                && s.pending() == dst_rate && s.current().raw == 0 && !s.exhausted()
                && !s.notified(),
    {
        if src_rate >= 1 && dst_rate >= 1 {
            Ok(
                Resampler {
                    src_rate,
                    dst_rate,
                    acc: dst_rate as u64,
                    left: Sample { raw: 0 },
                    exhausted: false,
                    notified: false,
                },
            )
        } else {
            Err(ConfigError::BadRate)
        }
    }

    /// Whether more input is required before the next output.
    pub fn wants_source(&self) -> (r: bool)
        ensures
            r == self.needs_source(),
    {
        !self.exhausted && self.acc >= self.dst_rate as u64
    }

    /// Whether the input stream has been fully drained; once true, stays
    /// true forever.
    pub fn is_exhausted(&self) -> (r: bool)
        ensures
            r == self.exhausted(),
    {
        self.exhausted
    }

    /// Steps the interpolator onto the next input sample.
    pub fn push_source(&mut self, s: Sample)
        requires
            old(self).wf(),
            old(self).needs_source(),
        ensures
            final(self).wf(),
            final(self).src_rate() == old(self).src_rate(),
            final(self).dst_rate() == old(self).dst_rate(),
            final(self).pending() == old(self).pending() - old(self).dst_rate(),
            final(self).current() == s,
            final(self).exhausted() == old(self).exhausted(),
            final(self).notified() == old(self).notified(),
    {
        self.acc = self.acc - self.dst_rate as u64;
        self.left = s;
    }

    /// Records that the input stream is drained; exhaustion is permanent.
    pub fn source_done(&mut self)
        ensures
            final(self).wf() == old(self).wf(),
            final(self).src_rate() == old(self).src_rate(),
            final(self).dst_rate() == old(self).dst_rate(),
            final(self).pending() == old(self).pending(),
            final(self).current() == old(self).current(),
            final(self).exhausted(),
            final(self).notified() == old(self).notified(),
    {
        self.exhausted = true;
    }

    /// Produces the next output sample: the input sample the interpolator
    /// sits on, or silence forever once exhausted.
    pub fn emit(&mut self) -> (out: Sample)
        requires
            old(self).wf(),
            !old(self).needs_source(),
        ensures
            final(self).wf(),
            final(self).src_rate() == old(self).src_rate(),
            final(self).dst_rate() == old(self).dst_rate(),
            final(self).exhausted() == old(self).exhausted(),
            final(self).notified() == old(self).notified(),
            final(self).current() == old(self).current(),
            old(self).exhausted() ==> out.raw == 0 && final(self).pending() == old(self).pending(),
            !old(self).exhausted() ==> out == old(self).current() && final(self).pending() == old(
                self,
            ).pending() + old(self).src_rate(),
    {
        if self.exhausted {
            Sample { raw: 0 }
        } else {
            let out = self.left;
            self.acc = self.acc + self.src_rate as u64;
            out
        }
    }

    /// Fires the one-shot exhaustion notification: true exactly on the
    /// first call made after the stream became exhausted.
    pub fn take_exhaustion_event(&mut self) -> (fired: bool)
        ensures
            fired == (old(self).exhausted() && !old(self).notified()),
            final(self).notified() == (old(self).notified() || old(self).exhausted()),
            final(self).wf() == old(self).wf(),
            final(self).src_rate() == old(self).src_rate(),
            final(self).dst_rate() == old(self).dst_rate(),
            final(self).pending() == old(self).pending(),
            final(self).current() == old(self).current(),
            final(self).exhausted() == old(self).exhausted(),
    {
        if self.exhausted && !self.notified {
            self.notified = true;
            true
        } else {
            false
        }
    }

    /// Pulls from the channel until the next output can be produced: the
    /// needed input samples when buffered, the remaining tail (and then
    /// permanent exhaustion) when the channel is closed short, or nothing
    /// conclusive while the open channel has too few samples.
    pub fn fill_from_channel(&mut self, chan: &mut SampleChannel) -> (ready: bool)
        requires
            old(self).wf(),
        ensures
            final(self).wf(),
            final(self).src_rate() == old(self).src_rate(),
            final(self).dst_rate() == old(self).dst_rate(),
            final(self).notified() == old(self).notified(),
            final(chan).is_closed() == old(chan).is_closed(),
            final(chan).rate() == old(chan).rate(),
            ready == !final(self).needs_source(),
            old(self).exhausted() ==> *final(self) == *old(self) && *final(chan) == *old(chan)
                && ready,
            ({
                let need = old(self).pending() / old(self).dst_rate();
                let avail = old(chan).buffered().len() as int;
                &&& (!old(self).exhausted() && avail >= need ==> ({
                    &&& final(self).pending() == old(self).pending() % old(self).dst_rate()
                    &&& final(self).current() == (if need == 0 {
                        old(self).current()
                    } else {
                        old(chan).buffered()[need - 1]
                    })
                    &&& !final(self).exhausted()
                    &&& final(chan).buffered() == old(chan).buffered().subrange(need, avail)
                    &&& ready
                }))
                &&& (!old(self).exhausted() && avail < need ==> ({
                    &&& final(self).pending() == old(self).pending() - avail * old(
                        self,
                    ).dst_rate()
                    &&& final(self).current() == (if avail == 0 {
                        old(self).current()
                    } else {
                        old(chan).buffered()[avail - 1]
                    })
                    &&& final(chan).buffered() == Seq::<Sample>::empty()
                    &&& final(self).exhausted() == old(chan).is_closed()
                    &&& ready == old(chan).is_closed()
                }))
            }),
    {
        let ghost self0 = *self;
        let ghost chan0 = *chan;
        let ghost q0 = chan.buffered();
        let ghost a0 = self.pending();
        let ghost d = self.dst_rate();
        let ghost mut pulled: int = 0;
        while !self.exhausted && self.acc >= self.dst_rate as u64
            invariant
                self0 == *old(self),
                chan0 == *old(chan),
                q0 == chan0.buffered(),
                a0 == self0.pending(),
                d == self0.dst_rate(),
                self.wf(),
                self.src_rate() == self0.src_rate(),
                self.dst_rate() == self0.dst_rate(),
                self.notified() == self0.notified(),
                self.exhausted() ==> self0.exhausted() || chan0.is_closed(),
                chan.is_closed() == chan0.is_closed(),
                chan.rate() == chan0.rate(),
                d == self.dst_rate(),
                0 <= pulled <= q0.len(),
                self0.exhausted() ==> pulled == 0 && *self == self0 && *chan == chan0,
                !self0.exhausted() ==> ({
                    &&& self.pending() == a0 - pulled * d
                    &&& self.current() == (if pulled == 0 {
                        self0.current()
                    } else {
                        q0[pulled - 1]
                    })
                    &&& chan.buffered() == q0.subrange(pulled, q0.len() as int)
                    &&& (self.exhausted() ==> pulled == q0.len() && self.pending()
                        >= self.dst_rate())
                }),
            decreases (if self.exhausted() {
                0int
            } else {
                1int
            }), q0.len() - pulled,
        {
            let r = chan.receive();
            match r {
                Received::Next(s) => {
                    proof {
                        assert(q0.subrange(pulled, q0.len() as int).len() > 0);
                        assert(chan.buffered() == q0.subrange(pulled + 1, q0.len() as int)) by {
                            assert(q0.subrange(pulled, q0.len() as int).subrange(
                                1,
                                q0.len() - pulled,
                            ) =~= q0.subrange(pulled + 1, q0.len() as int));
                        }
                        assert(s == q0[pulled]) by {
                            assert(q0.subrange(pulled, q0.len() as int)[0] == q0[pulled]);
                        }
                        assert((pulled + 1) * d == pulled * d + d) by {
                            lemma_mul_is_distributive_add_other_way(d, pulled, 1);
                        }
                    }
                    self.push_source(s);
                    proof {
                        pulled = pulled + 1;
                    }
                },
                Received::EndOfStream => {
                    proof {
                        assert(q0.subrange(pulled, q0.len() as int).len() == 0);
                        assert(pulled == q0.len());
                    }
                    self.source_done();
                },
                Received::WouldBlock => {
                    proof {
                        assert(q0.subrange(pulled, q0.len() as int).len() == 0);
                        assert(pulled == q0.len());
                        assert(a0 - q0.len() * d >= d);
                        assert(a0 >= (q0.len() + 1) * d) by {
                            lemma_mul_is_distributive_add_other_way(d, q0.len() as int, 1);
                        }
                        assert(a0 / d >= q0.len() + 1) by {
                            lemma_div_by_multiple(q0.len() as int + 1, d);
                            lemma_div_is_ordered((q0.len() + 1) * d, a0, d);
                        }
                        assert(chan.buffered() =~= Seq::<Sample>::empty());
                    }
                    return false;
                },
            }
        }
        proof {
            let need = a0 / d;
            if !self0.exhausted() {
                if !self.exhausted() {
                    // Every needed input sample was pulled: the pending
                    // advance is now the remainder of the starting
                    // position, and exactly `need` samples left the
                    // channel.
                    lemma_fundamental_div_mod_converse(a0, d, pulled, self.pending());
                    assert(pulled == need);
                } else {
                    // The channel closed short of the need.
                    assert(pulled == q0.len());
                    assert(a0 - q0.len() * d >= d);
                    assert(a0 >= (q0.len() + 1) * d) by {
                        lemma_mul_is_distributive_add_other_way(d, q0.len() as int, 1);
                    }
                    assert(need >= q0.len() + 1) by {
                        lemma_div_by_multiple(q0.len() as int + 1, d);
                        lemma_div_is_ordered((q0.len() + 1) * d, a0, d);
                    }
                    assert(chan.buffered() =~= Seq::<Sample>::empty());
                }
            }
        }
        true
    }
}

} // verus!
