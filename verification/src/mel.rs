//! Spectral and mel-band frame shapes.
//!
//! A spectral frame holds the non-redundant half-spectrum magnitudes of one
//! window; a mel frame holds one log-scale energy per configured band. The
//! numeric transform between them (the filterbank matrix) runs outside this
//! crate on floating point; here their shapes and pairing invariants are
//! enforced: a mel stage only matches an engine with the same window, and a
//! mel frame always carries exactly the configured band count. Energies are
//! carried in thousandths of the transform's log unit.

use vstd::prelude::*;

verus! {

use crate::error::ConfigError;
use crate::spectrogram::{SpectrogramEngine, spectral_bins_spec};

/// The non-redundant half-spectrum magnitudes of one analysis window.
/// Magnitudes are nonnegative fixed-point values in thousandths.
pub struct SpectralFrame {
    window: usize,
    mags: Vec<i64>,
}

impl SpectralFrame {
    /// The window size this frame was computed over.
    pub closed spec fn window(self) -> int {
        self.window as int
    }

    /// The magnitudes, one per frequency bin.
    pub closed spec fn mags(self) -> Seq<i64> {
        self.mags@
    }

    /// A frame is well-formed when it holds `window / 2 + 1` nonnegative
    /// magnitudes.
    pub open spec fn wf(self) -> bool {
        &&& self.mags().len() == spectral_bins_spec(self.window())
        &&& forall|i: int| 0 <= i < self.mags().len() ==> #[trigger] self.mags()[i] >= 0
    }

    /// Wraps magnitudes computed over one window, refusing any vector that
    /// is not exactly the non-redundant half-spectrum shape.
    pub fn from_magnitudes(window: usize, mags: Vec<i64>) -> (r: Result<SpectralFrame, ConfigError>)
        requires
            window <= 0x1000_0000,
        ensures
            r is Ok <==> mags@.len() == spectral_bins_spec(window as int) && (forall|i: int|
                0 <= i < mags@.len() ==> #[trigger] mags@[i] >= 0),
            r matches Ok(f) ==> f.window() == window && f.mags() == mags@ && f.wf(),
    {
        if mags.len() != window / 2 + 1 {
            return Err(ConfigError::BadShape);
        }
        let mut i: usize = 0;
        let n: usize = mags.len();
        while i < n
            invariant
                0 <= i <= n == mags@.len(),
                forall|j: int| 0 <= j < i ==> #[trigger] mags@[j] >= 0,
            decreases n - i,
        {
            if mags[i] < 0 {
                return Err(ConfigError::BadShape);
            }
            i = i + 1;
        }
        Ok(SpectralFrame { window, mags })
    }

    /// How many frequency bins the frame holds.
    pub fn len(&self) -> (n: usize)
        ensures
            n == self.mags().len(),
    {
        self.mags.len()
    }

    /// The magnitude of one bin.
    pub fn mag(&self, i: usize) -> (m: i64)
        requires
            i < self.mags().len(),
        ensures
            m == self.mags()[i as int],
    {
        self.mags[i]
    }

    /// Whether every magnitude is zero: the spectrum of a silent window.
    pub fn is_silent(&self) -> (r: bool)
        ensures
            r == (forall|i: int| 0 <= i < self.mags().len() ==> #[trigger] self.mags()[i] == 0),
    {
        let n: usize = self.mags.len();
        let mut i: usize = 0;
        while i < n
            invariant
                0 <= i <= n == self.mags().len(),
                forall|j: int| 0 <= j < i ==> #[trigger] self.mags()[j] == 0,
            decreases n - i,
        {
            if self.mags[i] != 0 {
                return false;
            }
            i = i + 1;
        }
        true
    }
}

/// The fixed configuration of a mel transform: derived once from the
/// Fourier size, the source sample rate and the band count, immutable
/// thereafter.
pub struct MelConfig {
    fft_size: usize,
    sample_rate: u32,
    n_bands: usize,
}

impl MelConfig {
    /// The Fourier size the transform expects.
    pub closed spec fn fft_size(self) -> int {
        self.fft_size as int
    }

    /// The source sample rate the filterbank was derived for.
    pub closed spec fn sample_rate(self) -> u32 {
        self.sample_rate
    }

    /// The number of mel bands produced per frame.
    pub closed spec fn n_bands(self) -> int {
        self.n_bands as int
    }

    /// Validates and fixes a transform configuration.
    pub fn new(fft_size: usize, sample_rate: u32, n_bands: usize) -> (r: Result<
        MelConfig,
        ConfigError,
    >)
        ensures
            r is Ok <==> 2 <= fft_size <= 0x1000_0000 && sample_rate >= 1 && 1 <= n_bands
                <= 0x10000,
            r matches Ok(c) ==> c.fft_size() == fft_size && c.sample_rate() == sample_rate
                && c.n_bands() == n_bands,
    {
        if fft_size < 2 || fft_size > 0x1000_0000 {
            Err(ConfigError::BadShape)
        } else if n_bands < 1 || n_bands > 0x10000 {
            Err(ConfigError::BadShape)
        } else if sample_rate < 1 {
            Err(ConfigError::BadRate)
        } else {
            Ok(MelConfig { fft_size, sample_rate, n_bands })
        }
    }

    /// The Fourier size the transform expects.
    pub fn fourier_size(&self) -> (n: usize)
        ensures
            n == self.fft_size(),
    {
        self.fft_size
    }

    /// The source sample rate the filterbank was derived for.
    pub fn rate(&self) -> (r: u32)
        ensures
            r == self.sample_rate(),
    {
        self.sample_rate
    }

    /// The number of mel bands produced per frame.
    pub fn band_count(&self) -> (n: usize)
        ensures
            n == self.n_bands(),
    {
        self.n_bands
    }

    /// Whether this transform can be paired with `engine`: their window
    /// sizes must agree.
    pub fn matches_engine(&self, engine: &SpectrogramEngine) -> (r: bool)
        ensures
            r == (self.fft_size() == engine.window()),
    {
        self.fft_size == engine.window_size()
    }

    /// Wraps one frame of band energies, refusing any vector that does not
    /// hold exactly the configured band count.
    pub fn frame_from(&self, bands: Vec<i64>) -> (r: Result<MelFrame, ConfigError>)
        ensures
            r is Ok <==> bands@.len() == self.n_bands(),
            r matches Ok(f) ==> f.bands() == bands@,
    {
        if bands.len() == self.n_bands {
            Ok(MelFrame { bands })
        } else {
            Err(ConfigError::BadShape)
        }
    }
}

/// One frame of perceptually-scaled band energies, in thousandths of the
/// transform's log unit.
pub struct MelFrame {
    bands: Vec<i64>,
}

impl MelFrame {
    /// The band energies, in band order.
    pub closed spec fn bands(self) -> Seq<i64> {
        self.bands@
    }

    /// Wraps band energies without a configured count to hold them to.
    pub fn new(bands: Vec<i64>) -> (f: MelFrame)
        ensures
            f.bands() == bands@,
    {
        MelFrame { bands }
    }

    /// How many bands the frame holds.
    pub fn len(&self) -> (n: usize)
        ensures
            n == self.bands().len(),
    {
        self.bands.len()
    }

    /// The energy of one band.
    pub fn band(&self, i: usize) -> (v: i64)
        requires
            i < self.bands().len(),
        ensures
            v == self.bands()[i as int],
    {
        self.bands[i]
    }
}

} // verus!
