use melviz::error::{ConfigError, SourceError};
use melviz::mel::MelConfig;
use melviz::resample::Resampler;
use melviz::spectrogram::SpectrogramEngine;

#[test]
fn source_error_messages_describe_each_condition() {
    assert_eq!(
        SourceError::UnsupportedFormat.message(),
        "unsupported container or codec format"
    );
    assert_eq!(SourceError::NoAudioTrack.message(), "no supported audio track");
    assert_eq!(SourceError::NoDevice.message(), "no device available");
    assert_eq!(
        SourceError::UnsupportedSampleFormat.message(),
        "unsupported native sample format"
    );
}

#[test]
fn config_error_variants_come_from_their_conditions() {
    assert!(matches!(
        SpectrogramEngine::new(4, 5),
        Err(ConfigError::BadShape)
    ));
    assert!(matches!(MelConfig::new(16, 0, 4), Err(ConfigError::BadRate)));
    assert!(matches!(Resampler::new(0, 1), Err(ConfigError::BadRate)));
    assert_eq!(ConfigError::BadShape.message(), "invalid analysis shape");
    assert_eq!(ConfigError::BadRate.message(), "invalid sample rate");
}
