//! Point-to-point transport of mono samples between one producer and one
//! consumer.
//!
//! The queue is unbounded, so a send always completes; the consumer drains
//! in production order. Closing is one-way and idempotent: buffered samples
//! stay drainable, after which every receive reports end of stream. The
//! stream's sample rate is fixed at creation.

use vstd::prelude::*;

verus! {

use crate::sample::Sample;

/// What a receive observed.
#[derive(Clone, Copy, Debug, PartialEq, Eq, Structural)]
pub enum Received {
    /// The oldest buffered sample, now consumed.
    Next(Sample),
    /// The channel is closed and fully drained: normal end of stream.
    EndOfStream,
    /// Nothing is buffered yet but the producer may still send.
    WouldBlock,
}

/// What draining a fixed-size chunk observed.
#[derive(Debug, PartialEq, Eq)]
pub enum Chunk {
    /// A full chunk of the requested length, in production order.
    Full(Vec<Sample>),
    /// The channel closed before a full chunk accumulated; these are all
    /// remaining samples (possibly none), in production order.
    Drained(Vec<Sample>),
    /// Not enough samples yet and the producer may still send.
    Blocked,
}

/// Single-producer, single-consumer sample transport with a fixed rate.
pub struct SampleChannel {
    queue: Vec<Sample>,
    closed: bool,
    rate: u32,
}

impl SampleChannel {
    /// The samples sent but not yet received, oldest first.
    pub closed spec fn buffered(self) -> Seq<Sample> {
        self.queue@
    }

    /// Whether the producer side has terminated.
    pub closed spec fn is_closed(self) -> bool {
        self.closed
    }

    /// The stream's sample rate, fixed at creation.
    pub closed spec fn rate(self) -> u32 {
        self.rate
    }

    /// Creates an open, empty channel for a stream at `rate` samples/second.
    pub fn new(rate: u32) -> (c: SampleChannel)
        requires
            rate >= 1,
        ensures
            c.buffered() == Seq::<Sample>::empty(),
            !c.is_closed(),
            c.rate() == rate,
    {
        SampleChannel { queue: Vec::new(), closed: false, rate }
    }

    /// How many samples are currently buffered.
    pub fn len(&self) -> (n: usize)
        ensures
            n == self.buffered().len(),
    {
        self.queue.len()
    }

    /// Whether the producer side has terminated.
    pub fn closed_now(&self) -> (r: bool)
        ensures
            r == self.is_closed(),
    {
        self.closed
    }

    /// The stream's sample rate.
    pub fn sample_rate(&self) -> (r: u32)
        ensures
            r == self.rate(),
    {
        self.rate
    }

    /// Appends one sample; never blocks and never drops.
    pub fn send(&mut self, s: Sample)
        requires
            !old(self).is_closed(),
        ensures
            final(self).buffered() == old(self).buffered().push(s),
            !final(self).is_closed(),
            final(self).rate() == old(self).rate(),
    {
        self.queue.push(s);
    }

    /// Marks the producer side terminated; idempotent, keeps the buffer.
    pub fn close(&mut self)
        ensures
            final(self).buffered() == old(self).buffered(),
            final(self).is_closed(),
            final(self).rate() == old(self).rate(),
    {
        self.closed = true;
    }

    /// Takes the oldest buffered sample; a closed, drained channel reports
    /// end of stream, an open, empty one reports that it would block.
    pub fn receive(&mut self) -> (r: Received)
        ensures
            old(self).buffered().len() > 0 ==> r == Received::Next(old(self).buffered()[0])
                && final(self).buffered() == old(self).buffered().subrange(
                1,
                old(self).buffered().len() as int,
            ),
            old(self).buffered().len() == 0 ==> final(self).buffered() == old(self).buffered()
                && r == (if old(self).is_closed() {
                Received::EndOfStream
            } else {
                Received::WouldBlock
            }),
            final(self).is_closed() == old(self).is_closed(),
            final(self).rate() == old(self).rate(),
    {
        if self.queue.len() > 0 {
            let s = self.queue.remove(0);
            Received::Next(s)
        } else if self.closed {
            Received::EndOfStream
        } else {
            Received::WouldBlock
        }
    }

    /// Drains exactly `n` samples when available; on a closed channel with
    /// fewer, drains what remains; otherwise leaves the buffer untouched.
    pub fn take_chunk(&mut self, n: usize) -> (r: Chunk)
        ensures
            old(self).buffered().len() >= n ==> ({
                &&& r matches Chunk::Full(v)
                &&& v@ == old(self).buffered().subrange(0, n as int)
                &&& final(self).buffered() == old(self).buffered().subrange(
                    n as int,
                    old(self).buffered().len() as int,
                )
            }),
            old(self).buffered().len() < n && old(self).is_closed() ==> ({
                &&& r matches Chunk::Drained(v)
                &&& v@ == old(self).buffered()
                &&& final(self).buffered() == Seq::<Sample>::empty()
            }),
            old(self).buffered().len() < n && !old(self).is_closed() ==> r == Chunk::Blocked
                && final(self).buffered() == old(self).buffered(),
            final(self).is_closed() == old(self).is_closed(),
            final(self).rate() == old(self).rate(),
    {
        let ghost orig = self.queue@;
        let available: usize = self.queue.len();
        if available >= n {
            let mut out: Vec<Sample> = Vec::new();
            let mut i: usize = 0;
            while i < n
                invariant
                    0 <= i <= n <= orig.len(),
                    out@ == orig.subrange(0, i as int),
                    self.queue@ == orig.subrange(i as int, orig.len() as int),
                    self.closed == old(self).is_closed(),
                    self.rate == old(self).rate(),
                decreases n - i,
            {
                let s = self.queue.remove(0);
                proof {
                    assert(orig.subrange(i as int, orig.len() as int)[0] == orig[i as int]);
                    assert(orig.subrange(0, i as int).push(orig[i as int]) =~= orig.subrange(
                        0,
                        i + 1,
                    ));
                    assert(orig.subrange(i as int, orig.len() as int).subrange(
                        1,
                        orig.len() - i,
                    ) =~= orig.subrange(i + 1, orig.len() as int));
                }
                out.push(s);
                i = i + 1;
            }
            Chunk::Full(out)
        } else if self.closed {
            let mut out: Vec<Sample> = Vec::new();
            let mut i: usize = 0;
            while i < available
                invariant
                    0 <= i <= available == orig.len(),
                    out@ == orig.subrange(0, i as int),
                    self.queue@ == orig.subrange(i as int, orig.len() as int),
                    self.closed == old(self).is_closed(),
                    self.rate == old(self).rate(),
                decreases available - i,
            {
                let s = self.queue.remove(0);
                proof {
                    assert(orig.subrange(i as int, orig.len() as int)[0] == orig[i as int]);
                    assert(orig.subrange(0, i as int).push(orig[i as int]) =~= orig.subrange(
                        0,
                        i + 1,
                    ));
                    assert(orig.subrange(i as int, orig.len() as int).subrange(
                        1,
                        orig.len() - i,
                    ) =~= orig.subrange(i + 1, orig.len() as int));
                }
                out.push(s);
                i = i + 1;
            }
            proof {
                assert(out@ =~= orig);
                assert(self.queue@ =~= Seq::<Sample>::empty());
            }
            Chunk::Drained(out)
        } else {
            Chunk::Blocked
        }
    }
}

} // verus!
