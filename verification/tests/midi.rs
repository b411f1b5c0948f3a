use glap::midi::{
    Message, MidiError, Step, Vlq, chunk_offsets, midi_layout_fits, next_message, read_midi,
    step_fits,
};

#[test]
fn message_new_is_empty() {
    let m = Message::new();
    assert_eq!(m.delta, 0);
    assert!(m.channel.is_none());
    assert_eq!(m.status, 0);
    assert!(m.data.is_empty());
}

#[test]
fn vlq_reads_single_and_multi_byte() {
    let v = Vlq::from_bytes(&[0x40, 0x81, 0x00]);
    assert_eq!((v.value, v.length), (0x40, 1));
    let v = Vlq::from_bytes(&[0x81, 0x00, 0x55]);
    assert_eq!((v.value, v.length), (0x80, 2));
    let v = Vlq::from_bytes(&[0xFF, 0xFF, 0xFF, 0x7F]);
    assert_eq!((v.value, v.length), (0x0FFF_FFFF, 4));
    let v = Vlq::from_bytes(&[0x81, 0x80]);
    assert_eq!((v.value, v.length), (0x80, 2));
    let v = Vlq::from_bytes(&[]);
    assert_eq!((v.value, v.length), (0, 0));
}

fn midi_file(tracks: &[(&[u8; 4], &[u8])]) -> Vec<u8> {
    let mut b = vec![0x4D, 0x54, 0x68, 0x64, 0, 0, 0, 6, 0, 1];
    b.extend_from_slice(&(tracks.len() as u16).to_be_bytes());
    b.extend_from_slice(&[0x01, 0xE0]);
    for (flag, data) in tracks {
        b.extend_from_slice(*flag);
        b.extend_from_slice(&(data.len() as u32).to_be_bytes());
        b.extend_from_slice(data);
    }
    b
}

const TRACK: &[u8] = &[0x00, 0x90, 0x3C, 0x40, 0x60, 0x80, 0x3C, 0x40, 0x00, 0xFF, 0x2F, 0x00];

#[test]
fn reads_a_valid_file() {
    let b = midi_file(&[(b"MTrk", TRACK)]);
    assert!(midi_layout_fits(&b));
    let f = read_midi(&b).ok().unwrap();
    assert_eq!(f.header.num_tracks, 1);
    assert_eq!(f.header.tpq, 480);
    assert_eq!(f.header.mode, 1);
    assert_eq!(f.header.length, 6);
    assert_eq!(f.tracks.len(), 1);
    assert_eq!(f.tracks[0].data, TRACK.to_vec());
    assert_eq!(f.tracks[0].length, 12);
}

#[test]
fn wrong_header_flag() {
    let mut b = midi_file(&[(b"MTrk", TRACK)]);
    b[0] = b'X';
    assert!(matches!(read_midi(&b), Err(MidiError::HeaderFlag)));
}

#[test]
fn invalid_chunk_is_reported_by_index() {
    let b = midi_file(&[(b"MTrk", TRACK), (b"MTrx", TRACK)]);
    assert!(matches!(read_midi(&b), Err(MidiError::InvalidChunk(1))));
    let b = midi_file(&[(b"MTrk", &[0x00, 0x90, 0x3C, 0x40])]);
    assert!(matches!(read_midi(&b), Err(MidiError::InvalidChunk(0))));
}

#[test]
fn layout_check_finds_truncated_files() {
    let b = midi_file(&[(b"MTrk", TRACK)]);
    assert!(!midi_layout_fits(&b[..b.len() - 1]));
    assert!(!midi_layout_fits(&b[..10]));
    let mut bad = b.clone();
    bad[0] = b'X';
    assert!(midi_layout_fits(&bad[..14]));
}

#[test]
fn walks_a_track() {
    let m = next_message(TRACK, 0);
    assert_eq!((m.delta, m.delta_length, m.status), (0, 1, 0x90));
    assert_eq!(m.step, Step::Next(4));
    let m = next_message(TRACK, 4);
    assert_eq!((m.delta, m.status), (0x60, 0x80));
    assert_eq!(m.step, Step::Next(8));
    let m = next_message(TRACK, 8);
    assert_eq!(m.step, Step::EndOfTrack);
}

#[test]
fn other_steps() {
    let d = [0x00, 0xB0, 0x00, 0, 0, 0, 0];
    assert_eq!(next_message(&d, 0).step, Step::Next(7));
    let d = [0x00, 0xB0, 0x07, 0, 0];
    assert_eq!(next_message(&d, 0).step, Step::Next(0));
    let d = [0x00, 0xFF, 0x51, 0x03, 0, 0, 0];
    assert_eq!(next_message(&d, 0).step, Step::Next(7));
    let d = [0x00, 0xFF, 0x60, 0x02, 0];
    assert_eq!(next_message(&d, 0).step, Step::UnknownMeta { kind: 0x60, length: 6 });
    let d = [0x00, 0x12, 0, 0];
    assert_eq!(next_message(&d, 0).step, Step::UnknownStatus(0x12));
    let d = [0x00, 0xC0, 0x05, 0];
    assert_eq!(next_message(&d, 0).step, Step::Next(3));
    let d = [0x00, 0xE0, 0x05, 0];
    assert_eq!(next_message(&d, 0).step, Step::Next(5));
    let d = [0x00, 0xF4, 0, 0];
    assert_eq!(next_message(&d, 0).step, Step::Next(0));
    assert!(step_fits(&d, 0));
    assert!(!step_fits(&d, 1));
    let d = [0x00, 0xFF, 0x2F];
    assert!(!step_fits(&d, 0));
}

#[test]
fn chunk_offsets_follow_the_lengths() {
    let b = midi_file(&[(b"MTrk", TRACK), (b"MTrk", &[0, 0xFF, 0x2F, 0])]);
    assert_eq!(chunk_offsets(&b), vec![14, 34]);
}

#[test]
fn vlq_reads_back_encodings() {
    for (v, e) in [
        (0u32, vec![0x00u8]),
        (0x7F, vec![0x7F]),
        (0x80, vec![0x81, 0x00]),
        (0x2000, vec![0xC0, 0x00]),
        (0x1F_FFFF, vec![0xFF, 0xFF, 0x7F]),
        (0x0FFF_FFFF, vec![0xFF, 0xFF, 0xFF, 0x7F]),
    ] {
        let mut bytes = e.clone();
        bytes.push(0x90);
        let q = Vlq::from_bytes(&bytes);
        assert_eq!((q.value, q.length), (v, e.len()));
    }
}
