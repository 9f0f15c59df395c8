use melviz::channel::SampleChannel;
use melviz::resample::Resampler;
use melviz::sample::Sample;

fn s(raw: i64) -> Sample {
    Sample { raw }
}

fn feed(chan: &mut SampleChannel, values: &[i64]) {
    for &v in values {
        chan.send(s(v));
    }
}

fn next_out(r: &mut Resampler, chan: &mut SampleChannel) -> i64 {
    assert!(r.fill_from_channel(chan), "the closed channel never blocks");
    r.emit().raw
}

#[test]
fn equal_rates_replay_the_input() {
    let mut chan = SampleChannel::new(8000);
    feed(&mut chan, &[10, 20, 30]);
    chan.close();
    let mut r = Resampler::new(8000, 8000).expect("rates are nonzero");
    assert_eq!(next_out(&mut r, &mut chan), 10);
    assert_eq!(next_out(&mut r, &mut chan), 20);
    assert_eq!(next_out(&mut r, &mut chan), 30);
    assert!(!r.is_exhausted());
    assert_eq!(next_out(&mut r, &mut chan), 0);
    assert!(r.is_exhausted());
}

#[test]
fn downsampling_skips_by_the_rate_ratio() {
    // Output index i replays input index floor(i * 2): every second
    // sample.
    let mut chan = SampleChannel::new(16000);
    feed(&mut chan, &[0, 1, 2, 3, 4, 5]);
    chan.close();
    let mut r = Resampler::new(16000, 8000).expect("rates are nonzero");
    assert_eq!(next_out(&mut r, &mut chan), 0);
    assert_eq!(next_out(&mut r, &mut chan), 2);
    assert_eq!(next_out(&mut r, &mut chan), 4);
}

#[test]
fn upsampling_repeats_by_the_rate_ratio() {
    // Output index i replays input index floor(i / 2): each sample twice.
    let mut chan = SampleChannel::new(8000);
    feed(&mut chan, &[5, 6]);
    chan.close();
    let mut r = Resampler::new(8000, 16000).expect("rates are nonzero");
    assert_eq!(next_out(&mut r, &mut chan), 5);
    assert_eq!(next_out(&mut r, &mut chan), 5);
    assert_eq!(next_out(&mut r, &mut chan), 6);
    assert_eq!(next_out(&mut r, &mut chan), 6);
}

#[test]
fn exhaustion_is_permanent_and_outputs_silence() {
    let mut chan = SampleChannel::new(8000);
    feed(&mut chan, &[42]);
    chan.close();
    let mut r = Resampler::new(8000, 8000).expect("rates are nonzero");
    assert!(!r.is_exhausted());
    assert_eq!(next_out(&mut r, &mut chan), 42);
    assert!(!r.is_exhausted());
    for _ in 0..10 {
        assert_eq!(next_out(&mut r, &mut chan), 0);
        assert!(r.is_exhausted());
    }
}

#[test]
fn exhaustion_event_fires_exactly_once() {
    let mut chan = SampleChannel::new(8000);
    chan.close();
    let mut r = Resampler::new(8000, 8000).expect("rates are nonzero");
    assert!(!r.take_exhaustion_event());
    assert_eq!(next_out(&mut r, &mut chan), 0);
    assert!(r.is_exhausted());
    let mut fired = 0;
    for _ in 0..5 {
        let _ = next_out(&mut r, &mut chan);
        if r.take_exhaustion_event() {
            fired += 1;
        }
    }
    assert_eq!(fired, 1);
}

#[test]
fn open_channel_short_of_input_blocks_without_loss() {
    let mut chan = SampleChannel::new(8000);
    let mut r = Resampler::new(8000, 8000).expect("rates are nonzero");
    assert!(!r.fill_from_channel(&mut chan));
    assert!(!r.is_exhausted());
    // Once the producer catches up, output resumes where it left off.
    feed(&mut chan, &[9]);
    assert!(r.fill_from_channel(&mut chan));
    assert_eq!(r.emit().raw, 9);
}

#[test]
fn zero_rates_are_refused() {
    assert!(Resampler::new(0, 8000).is_err());
    assert!(Resampler::new(8000, 0).is_err());
    assert!(Resampler::new(1, 1).is_ok());
}
