use glap::audio::audio_player::AudioPlayer;

fn player(n: usize, rate: u32) -> AudioPlayer<f32> {
    let samples: Vec<f32> = (0..n).map(|i| i as f32).collect();
    AudioPlayer::new(samples, rate, 2)
}

#[test]
fn new_player_starts_at_zero() {
    let p = player(10, 44100);
    assert_eq!(p.position(), 0);
    assert!(!p.finished);
    assert_eq!(p.sample_rate, 44100);
    assert_eq!(p.channels, 2);
    assert_eq!(p.get_progress(), (0, 10));
}

#[test]
fn callback_copies_the_next_samples() {
    let mut p = player(10, 1);
    let mut out = [9.0f32; 4];
    p.callback(&mut out, 0.0);
    assert_eq!(out, [0.0, 1.0, 2.0, 3.0]);
    assert_eq!(p.position(), 4);
    assert!(!p.finished);
    p.callback(&mut out, 0.0);
    assert_eq!(out, [4.0, 5.0, 6.0, 7.0]);
    assert_eq!(p.get_progress(), (8, 10));
}

#[test]
fn callback_past_the_end_pads_with_silence_and_finishes() {
    let mut p = player(10, 1);
    let mut out = [9.0f32; 8];
    p.callback(&mut out, 0.0);
    let mut out2 = [9.0f32; 4];
    p.callback(&mut out2, 0.0);
    assert_eq!(out2, [8.0, 9.0, 0.0, 0.0]);
    assert!(p.finished);
    assert_eq!(p.position(), 8);
    assert_eq!(p.get_progress(), (1, 1));
}

#[test]
fn finished_player_gives_only_silence() {
    let mut p = player(10, 1);
    p.finished = true;
    let mut out = [9.0f32; 3];
    p.callback(&mut out, 0.0);
    assert_eq!(out, [0.0, 0.0, 0.0]);
    assert_eq!(p.position(), 0);
}

#[test]
fn exact_fit_buffer_does_not_finish() {
    let mut p = player(4, 1);
    let mut out = [9.0f32; 4];
    p.callback(&mut out, 0.0);
    assert_eq!(out, [0.0, 1.0, 2.0, 3.0]);
    assert!(!p.finished);
    assert_eq!(p.get_progress(), (4, 4));
}

#[test]
fn forward_2s_moves_two_seconds() {
    let mut p = player(100, 10);
    p.forward_2s();
    assert_eq!(p.position(), 20);
    assert!(!p.finished);
}

#[test]
fn forward_2s_near_the_end_finishes() {
    let mut p = player(100, 45);
    p.forward_2s();
    assert_eq!(p.position(), 90);
    p.forward_2s();
    assert_eq!(p.position(), 90);
    assert!(p.finished);
}

#[test]
fn forward_2s_to_the_exact_end() {
    let mut p = player(20, 10);
    p.forward_2s();
    assert_eq!(p.position(), 20);
    assert!(!p.finished);
}

#[test]
fn back_2s_moves_back_or_to_start() {
    let mut p = player(100, 10);
    p.forward_2s();
    p.forward_2s();
    p.back_2s();
    assert_eq!(p.position(), 20);
    p.back_2s();
    p.back_2s();
    assert_eq!(p.position(), 0);
}

#[test]
fn back_undoes_forward() {
    let mut p = player(100, 7);
    let mut out = [0.0f32; 5];
    p.callback(&mut out, 0.0);
    p.forward_2s();
    p.back_2s();
    assert_eq!(p.position(), 5);
}

#[test]
fn restart_goes_back_to_the_start() {
    let mut p = player(10, 1);
    let mut out = [0.0f32; 12];
    p.callback(&mut out, 0.0);
    assert!(p.finished);
    p.restart();
    assert!(!p.finished);
    assert_eq!(p.position(), 0);
    assert_eq!(p.get_progress(), (0, 10));
}

#[test]
fn consecutive_buffers_equal_one_long_buffer() {
    let mut a = player(10, 1);
    let mut b = player(10, 1);
    let mut x = [0.0f32; 3];
    let mut y = [0.0f32; 5];
    a.callback(&mut x, -1.0);
    a.callback(&mut y, -1.0);
    let mut z = [0.0f32; 8];
    b.callback(&mut z, -1.0);
    let joined: Vec<f32> = x.iter().chain(y.iter()).copied().collect();
    assert_eq!(joined, z.to_vec());
    assert_eq!(a.position(), b.position());
}

#[test]
fn playback_spec_converts_rate_and_channels() {
    let p: AudioPlayer<f32> = AudioPlayer::new(vec![], 44100, 2);
    let s = p.playback_spec();
    assert_eq!(s.freq, 44100);
    assert_eq!(s.channels, 2);
    let q: AudioPlayer<f32> = AudioPlayer::new(vec![], u32::MAX, 258);
    let t = q.playback_spec();
    assert_eq!(t.freq, -1);
    assert_eq!(t.channels, 2);
}
