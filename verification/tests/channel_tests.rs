use melviz::capture::LiveCapture;
use melviz::channel::{Chunk, Received, SampleChannel};
use melviz::sample::Sample;

fn s(raw: i64) -> Sample {
    Sample { raw }
}

#[test]
fn channel_preserves_order() {
    let mut chan = SampleChannel::new(8000);
    chan.send(s(1));
    chan.send(s(2));
    chan.send(s(3));
    assert_eq!(chan.receive(), Received::Next(s(1)));
    assert_eq!(chan.receive(), Received::Next(s(2)));
    assert_eq!(chan.receive(), Received::Next(s(3)));
    assert_eq!(chan.receive(), Received::WouldBlock);
}

#[test]
fn closed_channel_stays_drainable_then_ends() {
    let mut chan = SampleChannel::new(44100);
    chan.send(s(7));
    chan.send(s(8));
    chan.close();
    assert!(chan.closed_now());
    assert_eq!(chan.receive(), Received::Next(s(7)));
    assert_eq!(chan.receive(), Received::Next(s(8)));
    assert_eq!(chan.receive(), Received::EndOfStream);
    assert_eq!(chan.receive(), Received::EndOfStream);
}

#[test]
fn close_is_idempotent() {
    let mut chan = SampleChannel::new(100);
    chan.send(s(5));
    chan.close();
    chan.close();
    assert_eq!(chan.len(), 1);
    assert_eq!(chan.receive(), Received::Next(s(5)));
    assert_eq!(chan.receive(), Received::EndOfStream);
}

#[test]
fn take_chunk_full_short_and_blocked() {
    let mut chan = SampleChannel::new(100);
    for i in 0..5 {
        chan.send(s(i));
    }
    match chan.take_chunk(3) {
        Chunk::Full(v) => assert_eq!(v, vec![s(0), s(1), s(2)]),
        _ => panic!("expected a full chunk"),
    }
    assert!(matches!(chan.take_chunk(3), Chunk::Blocked));
    assert_eq!(chan.len(), 2);
    chan.close();
    match chan.take_chunk(3) {
        Chunk::Drained(v) => assert_eq!(v, vec![s(3), s(4)]),
        _ => panic!("expected the drained tail"),
    }
    assert_eq!(chan.receive(), Received::EndOfStream);
}

#[test]
fn capture_downmixes_and_forwards_in_order() {
    let mut chan = SampleChannel::new(48000);
    let mut cap = LiveCapture::new(2, 4).expect("two channels are supported");
    let data = vec![s(10), s(30), s(-10), s(-30)];
    cap.ingest(&data, &mut chan);
    assert!(!cap.closed_now());
    assert_eq!(cap.frames_left(), 2);
    assert_eq!(chan.receive(), Received::Next(s(20)));
    assert_eq!(chan.receive(), Received::Next(s(-20)));
}

#[test]
fn capture_limit_closes_channel_once_and_ends_stream() {
    // A limit of 4 mono samples with stereo hardware: two deliveries fit,
    // the third exceeds the budget, closes the stream and is dropped.
    let mut chan = SampleChannel::new(48000);
    let mut cap = LiveCapture::new(2, 4).expect("two channels are supported");
    let delivery = vec![s(100), s(200), s(300), s(400)];
    cap.ingest(&delivery, &mut chan);
    cap.ingest(&delivery, &mut chan);
    assert_eq!(cap.frames_left(), 0);
    assert!(!cap.closed_now());
    cap.ingest(&delivery, &mut chan);
    assert!(cap.closed_now());
    assert!(chan.closed_now());
    // A delivery after closure is ignored, and closure happened once.
    cap.ingest(&delivery, &mut chan);
    assert_eq!(chan.len(), 4);
    for _ in 0..2 {
        assert_eq!(chan.receive(), Received::Next(s(150)));
        assert_eq!(chan.receive(), Received::Next(s(350)));
    }
    assert_eq!(chan.receive(), Received::EndOfStream);
    assert_eq!(chan.receive(), Received::EndOfStream);
}

#[test]
fn capture_limit_from_rate_and_duration() {
    assert_eq!(LiveCapture::limit_for(48000, 5), 240000);
    assert_eq!(LiveCapture::limit_for(0, 5), 0);
}
