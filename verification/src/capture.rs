//! Live-capture ingestion: downmixing and the sample-count limit.
//!
//! A capture device delivers interleaved frames of one sample per channel.
//! Each delivery is downmixed to mono by arithmetic mean and forwarded to
//! the sample channel in arrival order, until a configured number of
//! frames has been produced; the first delivery that would exceed the
//! limit is dropped whole and the channel is closed, exactly once. After
//! closure every delivery is ignored.

use vstd::prelude::*;

verus! {

use vstd::arithmetic::div_mod::lemma_fundamental_div_mod;
use vstd::arithmetic::mul::{lemma_mul_inequality, lemma_mul_is_distributive_add_other_way};
use crate::channel::SampleChannel;
use crate::error::ConfigError;
use crate::sample::{downmix_seq, Sample};

/// Ingests capture deliveries until a configured frame limit is reached.
pub struct LiveCapture {
    channels: usize,
    remaining: u64,
    closed: bool,
}

impl LiveCapture {
    /// How many samples each interleaved frame holds.
    pub closed spec fn channels(self) -> int {
        self.channels as int
    }

    /// How many more mono frames may be produced before closure.
    pub closed spec fn remaining(self) -> int {
        self.remaining as int
    }

    /// Whether the limit was reached and the stream closed.
    pub closed spec fn is_closed(self) -> bool {
        self.closed
    }

    /// The channel count is in the supported range.
    pub open spec fn wf(self) -> bool {
        1 <= self.channels() <= 65536
    }

    /// Creates a capture source for `channels`-channel hardware that will
    /// produce at most `limit` mono samples.
    pub fn new(channels: usize, limit: u64) -> (r: Result<LiveCapture, ConfigError>)
        ensures
            r is Ok <==> 1 <= channels <= 65536,
            r matches Ok(c) ==> c.wf() && c.channels() == channels && c.remaining() == limit
                && !c.is_closed(),
    {
        if 1 <= channels && channels <= 65536 {
            Ok(LiveCapture { channels, remaining: limit, closed: false })
        } else {
            Err(ConfigError::BadShape)
        }
    }

    /// The sample budget for a capture of `seconds` at `rate`.
    pub fn limit_for(rate: u32, seconds: u32) -> (n: u64)
        ensures
            n == rate * seconds,
    {
        proof {
            assert((rate as int) * (seconds as int) <= 0xffff_ffff * 0xffff_ffff)
                by (nonlinear_arith)
                requires
                    rate <= 0xffff_ffff,
                    seconds <= 0xffff_ffff,
            ;
        }
        (rate as u64) * (seconds as u64)
    }

    /// Whether the limit was reached and the stream closed.
    pub fn closed_now(&self) -> (r: bool)
        ensures
            r == self.is_closed(),
    {
        self.closed
    }

    /// How many more mono frames may be produced before closure.
    pub fn frames_left(&self) -> (n: u64)
        ensures
            n == self.remaining(),
    {
        self.remaining
    }

    /// Accepts one interleaved delivery from the device: forwards its
    /// downmixed mono frames while the budget lasts; the first delivery
    /// beyond the budget closes the channel once and is dropped whole;
    /// after closure deliveries are ignored.
    pub fn ingest(&mut self, data: &Vec<Sample>, chan: &mut SampleChannel)
        requires
            old(self).wf(),
            data@.len() as int % old(self).channels() == 0,
            forall|i: int| 0 <= i < data@.len() ==> #[trigger] data@[i].valid(),
            !old(self).is_closed() ==> !old(chan).is_closed(),
        ensures
            final(self).wf(),
            final(self).channels() == old(self).channels(),
            final(chan).rate() == old(chan).rate(),
            old(self).is_closed() ==> *final(self) == *old(self) && *final(chan) == *old(chan),
            ({
                let frames = data@.len() as int / old(self).channels();
                &&& (!old(self).is_closed() && frames <= old(self).remaining() ==> ({
                    &&& !final(self).is_closed()
                    &&& final(self).remaining() == old(self).remaining() - frames
                    &&& !final(chan).is_closed()
                    &&& final(chan).buffered() == old(chan).buffered() + downmix_seq(
                        data@,
                        old(self).channels(),
                    )
                }))
                &&& (!old(self).is_closed() && frames > old(self).remaining() ==> ({
                    &&& final(self).is_closed()
                    &&& final(self).remaining() == old(self).remaining()
                    &&& final(chan).is_closed()
                    &&& final(chan).buffered() == old(chan).buffered()
                }))
            }),
    {
        if self.closed {
            return ;
        }
        let ghost q0 = chan.buffered();
        let ghost ch = self.channels as int;
        let ghost dmx = downmix_seq(data@, ch);
        let dlen: usize = data.len();
        let frames: usize = dlen / self.channels;
        proof {
            lemma_fundamental_div_mod(dlen as int, ch);
            assert(dlen as int == ch * frames);
            assert(frames * ch == ch * frames) by (nonlinear_arith);
        }
        if (frames as u64) <= self.remaining {
            self.remaining = self.remaining - frames as u64;
            let mut f: usize = 0;
            while f < frames
                invariant
                    0 <= f <= frames,
                    self.wf(),
                    ch == self.channels as int,
                    dlen == data@.len(),
                    frames * ch == data@.len(),
                    dmx == downmix_seq(data@, ch),
                    dmx.len() == frames,
                    q0 == old(chan).buffered(),
                    forall|i: int| 0 <= i < data@.len() ==> #[trigger] data@[i].valid(),
                    !self.closed,
                    self.channels == old(self).channels,
                    self.remaining() == old(self).remaining() - frames,
                    !chan.is_closed(),
                    chan.rate() == old(chan).rate(),
                    chan.buffered() == q0 + dmx.subrange(0, f as int),
                decreases frames - f,
            {
                proof {
                    assert((f + 1) * ch == f * ch + ch) by {
                        lemma_mul_is_distributive_add_other_way(ch, f as int, 1);
                    }
                    assert((f + 1) * ch <= frames * ch) by {
                        lemma_mul_inequality(f + 1, frames as int, ch);
                    }
                }
                let base: usize = f * self.channels;
                let mut group: Vec<Sample> = Vec::new();
                let mut c: usize = 0;
                while c < self.channels
                    invariant
                        0 <= c <= self.channels,
                        ch == self.channels as int,
                        base == f * ch,
                        dlen == data@.len(),
                        base + ch <= dlen,
                        forall|i: int| 0 <= i < data@.len() ==> #[trigger] data@[i].valid(),
                        group@ == data@.subrange(base as int, base + c),
                    decreases self.channels - c,
                {
                    let s = data[base + c];
                    group.push(s);
                    proof {
                        assert(data@.subrange(base as int, base + c + 1) =~= data@.subrange(
                            base as int,
                            base + c,
                        ).push(data@[base + c]));
                    }
                    c = c + 1;
                }
                let mono = crate::sample::downmix(&group);
                proof {
                    assert(group@ == data@.subrange(f * ch, (f + 1) * ch));
                    assert(dmx[f as int] == mono);
                }
                chan.send(mono);
                proof {
                    assert(q0 + dmx.subrange(0, f + 1) =~= (q0 + dmx.subrange(0, f as int)).push(
                        dmx[f as int],
                    ));
                }
                f = f + 1;
            }
            proof {
                assert(dmx.subrange(0, frames as int) =~= dmx);
            }
        } else {
            self.closed = true;
            chan.close();
        }
    }
}

} // verus!
