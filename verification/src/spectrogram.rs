//! Framing engine of the spectrogram path.
//!
//! Samples accumulate in an internal buffer; whenever the buffer holds at
//! least one full window, `add` emits that window as a frame and retains
//! the trailing `window - stride` samples for the next (overlapping)
//! window, or nothing when strides are disjoint. At most one frame is
//! emitted per call; a trailing partial window is never zero-padded.

use vstd::prelude::*;

verus! {

use crate::error::ConfigError;
use crate::sample::Sample;

/// Number of non-redundant frequency bins of a real transform over one
/// window: `window / 2 + 1`.
pub open spec fn spectral_bins_spec(window: int) -> int {
    window / 2 + 1
}

/// Number of non-redundant frequency bins for a real-input transform.
pub fn spectral_bins(window: usize) -> (n: usize)
    requires
        window <= 0x1000_0000,
    ensures
        n == spectral_bins_spec(window as int),
{
    window / 2 + 1
}

/// One step of the framing engine over its mathematical model: from a
/// buffer and an incoming chunk, the emitted frame (if any) and the new
/// buffer.
pub open spec fn step_frame(buf: Seq<Sample>, chunk: Seq<Sample>, window: int, stride: int) -> (
    Option<Seq<Sample>>,
    Seq<Sample>,
) {
    let combined = buf + chunk;
    if combined.len() >= window {
        (Some(combined.subrange(0, window)), combined.subrange(stride, combined.len() as int))
    } else {
        (None, combined)
    }
}

/// Feeding exactly one window of samples to an engine with an empty buffer
/// yields exactly one frame holding precisely those samples; feeding fewer
/// yields none. With disjoint strides the buffer is then empty again.
pub proof fn law_window_fills_one_frame(chunk: Seq<Sample>, window: int, stride: int)
    requires
        1 <= stride <= window,
    ensures
        chunk.len() == window ==> step_frame(Seq::<Sample>::empty(), chunk, window, stride).0
            == Some(chunk),
        chunk.len() == window ==> step_frame(Seq::<Sample>::empty(), chunk, window, stride).1
            == chunk.subrange(stride, chunk.len() as int),
        chunk.len() == window && stride == window ==> step_frame(
            Seq::<Sample>::empty(),
            chunk,
            window,
            stride,
        ).1 == Seq::<Sample>::empty(),
        chunk.len() < window ==> step_frame(Seq::<Sample>::empty(), chunk, window, stride) == (
            None::<Seq<Sample>>,
            chunk,
        ),
{
    let combined = Seq::<Sample>::empty() + chunk;
    assert(combined =~= chunk);
    if chunk.len() == window {
        assert(combined.subrange(0, window) =~= chunk);
        if stride == window {
            assert(combined.subrange(stride, combined.len() as int) =~= Seq::<Sample>::empty());
        }
    }
}

/// Accumulates a sample stream into fixed-size, possibly overlapping
/// windows.
pub struct SpectrogramEngine {
    window: usize,
    stride: usize,
    buf: Vec<Sample>,
}

impl SpectrogramEngine {
    /// The configured window size.
    pub closed spec fn window(self) -> int {
        self.window as int
    }

    /// The configured stride between consecutive windows.
    pub closed spec fn stride(self) -> int {
        self.stride as int
    }

    /// The samples accumulated and not yet emitted or discarded.
    pub closed spec fn buffer(self) -> Seq<Sample> {
        self.buf@
    }

    /// A window/stride pair the engine accepts.
    pub open spec fn valid_shape(window: int, stride: int) -> bool {
        1 <= stride <= window <= 0x1000_0000
    }

    /// Creates an engine; the shape is fixed for the engine's lifetime.
    pub fn new(window: usize, stride: usize) -> (r: Result<SpectrogramEngine, ConfigError>)
        ensures
            r is Ok <==> Self::valid_shape(window as int, stride as int),
            r matches Ok(e) ==> e.window() == window && e.stride() == stride && e.buffer()
                == Seq::<Sample>::empty(),
    {
        if 1 <= stride && stride <= window && window <= 0x1000_0000 {
            Ok(SpectrogramEngine { window, stride, buf: Vec::new() })
        } else {
            Err(ConfigError::BadShape)
        }
    }

    /// The configured window size.
    pub fn window_size(&self) -> (w: usize)
        ensures
            w == self.window(),
    {
        self.window
    }

    /// The configured stride.
    pub fn stride_size(&self) -> (s: usize)
        ensures
            s == self.stride(),
    {
        self.stride
    }

    /// How many samples are buffered toward the next window.
    pub fn buffered_len(&self) -> (n: usize)
        ensures
            n == self.buffer().len(),
    {
        self.buf.len()
    }

    /// Appends a chunk; emits one full window when enough samples have
    /// accumulated, retaining the trailing `window - stride` samples.
    pub fn add(&mut self, chunk: &Vec<Sample>) -> (r: Option<Vec<Sample>>)
        requires
            Self::valid_shape(old(self).window(), old(self).stride()),
        ensures
            final(self).window() == old(self).window(),
            final(self).stride() == old(self).stride(),
            ({
                let stepped = step_frame(
                    old(self).buffer(),
                    chunk@,
                    old(self).window(),
                    old(self).stride(),
                );
                &&& final(self).buffer() == stepped.1
                &&& (match r {
                    Some(frame) => stepped.0 == Some(frame@) && frame@.len() == old(self).window(),
                    None => stepped.0 is None,
                })
            }),
    {
        let ghost combined = self.buf@ + chunk@;
        let mut i: usize = 0;
        let n: usize = chunk.len();
        while i < n
            invariant
                0 <= i <= n == chunk@.len(),
                self.buf@ == old(self).buffer() + chunk@.subrange(0, i as int),
                self.window == old(self).window(),
                self.stride == old(self).stride(),
            decreases n - i,
        {
            let s = chunk[i];
            self.buf.push(s);
            proof {
                assert(old(self).buffer() + chunk@.subrange(0, i + 1) =~= (old(self).buffer()
                    + chunk@.subrange(0, i as int)).push(chunk@[i as int]));
            }
            i = i + 1;
        }
        proof {
            assert(self.buf@ =~= combined);
        }
        if self.buf.len() >= self.window {
            let mut frame: Vec<Sample> = Vec::new();
            let mut j: usize = 0;
            while j < self.window
                invariant
                    0 <= j <= self.window <= self.buf@.len(),
                    self.buf@ == combined,
                    frame@ == combined.subrange(0, j as int),
                    self.window == old(self).window(),
                    self.stride == old(self).stride(),
                decreases self.window - j,
            {
                let s = self.buf[j];
                frame.push(s);
                proof {
                    assert(combined.subrange(0, j + 1) =~= combined.subrange(0, j as int).push(
                        combined[j as int],
                    ));
                }
                j = j + 1;
            }
            let mut rest: Vec<Sample> = Vec::new();
            let mut k: usize = self.stride;
            while k < self.buf.len()
                invariant
                    self.stride <= k <= self.buf@.len(),
                    self.buf@ == combined,
                    rest@ == combined.subrange(self.stride as int, k as int),
                    self.window == old(self).window(),
                    self.stride == old(self).stride(),
                decreases self.buf@.len() - k,
            {
                let s = self.buf[k];
                rest.push(s);
                proof {
                    assert(combined.subrange(self.stride as int, k + 1) =~= combined.subrange(
                        self.stride as int,
                        k as int,
                    ).push(combined[k as int]));
                }
                k = k + 1;
            }
            self.buf = rest;
            Some(frame)
        } else {
            None
        }
    }
}

} // verus!
