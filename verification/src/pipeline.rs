//! One step of the analysis loop: channel to framing engine.
//!
//! The consumer repeatedly drains a fixed-size chunk from the channel and
//! feeds it to the framing engine. A short final chunk on a closed channel
//! ends the analysis (its samples are dropped, matching the engine's
//! no-padding policy); an open channel without a full chunk makes no
//! progress at all.

use vstd::prelude::*;

verus! {

use crate::channel::{Chunk, SampleChannel};
use crate::sample::Sample;
use crate::spectrogram::{step_frame, SpectrogramEngine};

/// What one pump step produced.
pub enum Pumped {
    /// A full chunk was consumed and completed an analysis window.
    Frame(Vec<Sample>),
    /// A full chunk was consumed but no window is complete yet.
    NoFrame,
    /// The channel is closed and holds less than one chunk: analysis over.
    Ended,
    /// The open channel holds less than one chunk: try again later.
    Blocked,
}

impl SpectrogramEngine {
    /// Drains one `chunk`-sized batch from the channel into the engine:
    /// yields the completed window when one fills, reports the end of the
    /// stream once the closed channel cannot fill a batch, and leaves
    /// everything untouched while an open channel is still short.
    pub fn pump(&mut self, chan: &mut SampleChannel, chunk: usize) -> (r: Pumped)
        requires
            SpectrogramEngine::valid_shape(old(self).window(), old(self).stride()),
        ensures
            final(self).window() == old(self).window(),
            final(self).stride() == old(self).stride(),
            final(chan).is_closed() == old(chan).is_closed(),
            final(chan).rate() == old(chan).rate(),
            old(chan).buffered().len() >= chunk ==> ({
                let taken = old(chan).buffered().subrange(0, chunk as int);
                let stepped = step_frame(
                    old(self).buffer(),
                    taken,
                    old(self).window(),
                    old(self).stride(),
                );
                &&& final(chan).buffered() == old(chan).buffered().subrange(
                    chunk as int,
                    old(chan).buffered().len() as int,
                )
                &&& final(self).buffer() == stepped.1
                &&& (match r {
                    Pumped::Frame(f) => stepped.0 == Some(f@) && f@.len() == old(self).window(),
                    Pumped::NoFrame => stepped.0 is None,
                    _ => false,
                })
            }),
            old(chan).buffered().len() < chunk && old(chan).is_closed() ==> ({
                &&& r is Ended
                &&& final(chan).buffered() == Seq::<Sample>::empty()
                &&& final(self).buffer() == old(self).buffer()
            }),
            old(chan).buffered().len() < chunk && !old(chan).is_closed() ==> ({
                &&& r is Blocked
                &&& final(chan).buffered() == old(chan).buffered()
                &&& final(self).buffer() == old(self).buffer()
            }),
    {
        match chan.take_chunk(chunk) {
            Chunk::Full(batch) => {
                match self.add(&batch) {
                    Some(frame) => Pumped::Frame(frame),
                    None => Pumped::NoFrame,
                }
            },
            Chunk::Drained(_) => Pumped::Ended,
            Chunk::Blocked => Pumped::Blocked,
        }
    }
}

} // verus!
