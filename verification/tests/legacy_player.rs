use glap::audio_player::AudioPlayer;

fn player(n: usize) -> AudioPlayer<f32> {
    AudioPlayer::new((0..n).map(|i| i as f32 + 1.0).collect(), 8000, 1)
}

#[test]
fn legacy_new_plays() {
    let p = player(3);
    assert!(p.play);
    assert!(!p.finished);
    assert_eq!(p.position(), 0);
}

#[test]
fn legacy_switched_off_leaves_buffer_alone() {
    let mut p = player(3);
    p.play = false;
    let mut out = [7.0f32; 2];
    p.callback(&mut out, 0.0);
    assert_eq!(out, [7.0, 7.0]);
    assert_eq!(p.position(), 0);
}

#[test]
fn legacy_copies_then_pads_and_moves_past_end() {
    let mut p = player(3);
    let mut out = [7.0f32; 2];
    p.callback(&mut out, 0.0);
    assert_eq!(out, [1.0, 2.0]);
    p.callback(&mut out, 0.0);
    assert_eq!(out, [3.0, 0.0]);
    assert_eq!(p.position(), 4);
    assert!(!p.finished);
    p.callback(&mut out, 0.0);
    assert_eq!(out, [0.0, 0.0]);
    assert_eq!(p.position(), 4);
}
