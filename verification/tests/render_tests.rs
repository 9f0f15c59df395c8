use melviz::mel::{MelConfig, MelFrame, SpectralFrame};
use melviz::render::GlyphRenderer;
use melviz::spectrogram::SpectrogramEngine;

#[test]
fn quantization_matches_the_calibration_formula() {
    // level = clamp(floor(5 * ((v + 1.1) / 3.3)), 0, 4), with energies in
    // thousandths.
    let r = GlyphRenderer::braille_default();
    assert_eq!(r.quantize_level(-1500), 0);
    assert_eq!(r.quantize_level(-1100), 0);
    assert_eq!(r.quantize_level(-441), 0);
    assert_eq!(r.quantize_level(-440), 1);
    assert_eq!(r.quantize_level(0), 1);
    assert_eq!(r.quantize_level(220), 2);
    assert_eq!(r.quantize_level(880), 3);
    assert_eq!(r.quantize_level(1540), 4);
    assert_eq!(r.quantize_level(2200), 4);
}

#[test]
fn quantization_clamps_extreme_inputs() {
    let r = GlyphRenderer::braille_default();
    for v in [i64::MIN, -1_000_000_000, -1, 0, 1, 1_000_000_000, i64::MAX] {
        let lvl = r.quantize_level(v);
        assert!(lvl <= r.top_level());
    }
    assert_eq!(r.quantize_level(i64::MIN), 0);
    assert_eq!(r.quantize_level(i64::MAX), 4);
}

#[test]
fn rendering_is_deterministic() {
    let r = GlyphRenderer::braille_default();
    let bands = vec![-1500, 0, 550, 2200, -100, 900];
    let a = r.render_frame(&MelFrame::new(bands.clone()));
    let b = r.render_frame(&MelFrame::new(bands));
    assert_eq!(a, b);
}

#[test]
fn rendering_pairs_bands_in_order() {
    let r = GlyphRenderer::braille_default();
    // Levels: -1500 -> 0, 0 -> 1, 2200 -> 4.
    let line = r.render_frame(&MelFrame::new(vec![-1500, 0, 2200, 2200]));
    assert_eq!(line, vec!['⢀', '⣿']);
}

#[test]
fn odd_trailing_band_is_dropped() {
    let r = GlyphRenderer::braille_default();
    let line = r.render_frame(&MelFrame::new(vec![0, 0, 2200]));
    assert_eq!(line.len(), 1);
    assert_eq!(line, vec!['⣀']);
    let empty = r.render_frame(&MelFrame::new(vec![]));
    assert!(empty.is_empty());
}

#[test]
fn render_line_wraps_glyphs_in_delimiters() {
    let r = GlyphRenderer::braille_default();
    let out = r.render_line(&MelFrame::new(vec![-1500, -1500]));
    assert_eq!(out, vec!['|', '⠀', '|', '\n']);
}

#[test]
fn silent_window_renders_to_the_origin_glyph() {
    // A silent window through the real spectral path: the transform of
    // all-zero samples has all-zero magnitude, the whisper-style log mel
    // floor is exactly -1.5 per band, and every pair renders to the glyph
    // at level (0, 0).
    let mut stft = mel_spec::stft::Spectrogram::new(16, 16);
    let zeros = [0.0f32; 16];
    let fft = stft.add(&zeros).expect("one full window must emit");
    let mut mel = mel_spec::mel::MelSpectrogram::new(16, 8000.0, 4);
    let mel_out = mel.add(&fft);
    let bands: Vec<i64> = mel_out.iter().map(|x| (x * 1000.0).round() as i64).collect();
    assert_eq!(bands, vec![-1500, -1500, -1500, -1500]);
    let frame = MelFrame::new(bands);
    let r = GlyphRenderer::braille_default();
    let line = r.render_frame(&frame);
    assert_eq!(line, vec!['⠀', '⠀']);
}

#[test]
fn renderer_refuses_a_mismatched_catalog() {
    // A 2-by-2 catalog cannot serve max_level 4.
    let grid = vec![vec!['a', 'b'], vec!['c', 'd']];
    assert!(GlyphRenderer::new(5, 3300, 1100, 4, grid).is_err());
    // A ragged catalog is refused.
    let ragged = vec![vec!['a', 'b'], vec!['c']];
    assert!(GlyphRenderer::new(1, 1, 0, 1, ragged).is_err());
    // A zero denominator is refused.
    let square = vec![vec!['a', 'b'], vec!['c', 'd']];
    assert!(GlyphRenderer::new(1, 0, 0, 1, square).is_err());
    let square = vec![vec!['a', 'b'], vec!['c', 'd']];
    let r = GlyphRenderer::new(1, 1000, 0, 1, square).expect("a square catalog fits");
    assert_eq!(r.quantize_level(999), 0);
    assert_eq!(r.quantize_level(1000), 1);
    assert_eq!(r.quantize_level(5000), 1);
}

#[test]
fn spectral_frame_shape_is_enforced() {
    let f = SpectralFrame::from_magnitudes(8, vec![0, 0, 0, 0, 0]).expect("five bins fit window 8");
    assert_eq!(f.len(), 5);
    assert!(f.is_silent());
    assert!(SpectralFrame::from_magnitudes(8, vec![0, 0, 0]).is_err());
    assert!(SpectralFrame::from_magnitudes(8, vec![0, 0, 0, 0, -1]).is_err());
    let loud = SpectralFrame::from_magnitudes(8, vec![0, 5, 0, 0, 0]).expect("shape fits");
    assert!(!loud.is_silent());
    assert_eq!(loud.mag(1), 5);
}

#[test]
fn mel_config_pairs_with_matching_engine() {
    let cfg = MelConfig::new(16384, 41000, 64).expect("the shape is valid");
    assert_eq!(cfg.band_count(), 64);
    assert_eq!(cfg.rate(), 41000);
    let engine = SpectrogramEngine::new(16384, 4096).expect("the shape is valid");
    assert!(cfg.matches_engine(&engine));
    let other = SpectrogramEngine::new(4096, 4096).expect("the shape is valid");
    assert!(!cfg.matches_engine(&other));
    assert!(MelConfig::new(1, 41000, 64).is_err());
    assert!(MelConfig::new(16384, 0, 64).is_err());
    assert!(MelConfig::new(16384, 41000, 0).is_err());
}

#[test]
fn mel_frame_band_count_is_enforced() {
    let cfg = MelConfig::new(16, 8000, 4).expect("the shape is valid");
    assert!(cfg.frame_from(vec![0, 0, 0, 0]).is_ok());
    assert!(cfg.frame_from(vec![0, 0, 0]).is_err());
}
