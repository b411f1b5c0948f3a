use glap::audio::processing::{DecodeFailure, SampleCollector};

#[test]
fn collector_gathers_the_track_in_order() {
    let mut c: SampleCollector<f32> = SampleCollector::new(3);
    assert!(c.wants(3));
    assert!(!c.wants(4));
    c.take(Ok(vec![1.0, 2.0]));
    c.take(Err(DecodeFailure::Recoverable));
    c.take(Ok(vec![3.0]));
    assert_eq!(c.samples, vec![1.0, 2.0, 3.0]);
    assert!(!c.stopped);
    c.take(Err(DecodeFailure::Fatal));
    assert!(c.stopped);
    assert!(!c.wants(3));
    let p = c.into_player(48000, 2);
    assert_eq!(p.samples, vec![1.0, 2.0, 3.0]);
    assert_eq!(p.sample_rate, 48000);
    assert_eq!(p.channels, 2);
    assert_eq!(p.position(), 0);
    assert!(!p.finished);
}
