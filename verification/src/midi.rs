use vstd::prelude::*;
use vstd::array::array_as_slice;
use vstd::slice::{slice_subrange, slice_to_vec};

verus! {

/// A MIDI message.
#[derive(Clone)]
pub struct Message {
    /// The time since the previous message; MIDI writes it as a variable
    /// length quantity.
    pub delta: u32,
    pub channel: Option<u8>,
    pub status: u8,
    pub data: Vec<u8>,
}

impl Message {
    /// Creates a new (empty) message.
    pub fn new() -> (r: Self)
        ensures
            r.delta == 0,
            r.channel is None,
            r.status == 0,
            r.data@ == Seq::<u8>::empty(),
    {
        Message { delta: 0, channel: None, status: 0, data: Vec::new() }
    }
}

/// A variable length quantity as read from the front of some bytes: its
/// value and the number of bytes it took.
#[derive(Clone, Copy)]
pub struct Vlq {
    pub value: u32,
    pub length: usize,
}

/// The number of bytes that a variable length quantity at the front of `b`
/// takes: up to and including the first byte whose top bit is clear, or all
/// of `b` when there is none.
pub open spec fn vlq_length(b: Seq<u8>) -> nat
    decreases b.len(),
{
    if b.len() == 0 {
        0
    } else if b[0] < 0x80 {
        1
    } else {
        1 + vlq_length(b.drop_first())
    }
}

/// The value that the first `k` bytes of `b` write, seven bits a byte, most
/// significant first, kept to 32 bits.
pub open spec fn vlq_value(b: Seq<u8>, k: nat) -> nat
    decreases k,
{
    if k == 0 {
        0
    } else {
        ((vlq_value(b, (k - 1) as nat) * 128 + b[k - 1] % 128) % 0x1_0000_0000) as nat
    }
}

/// The bytes that `vlq_length` counts all have their top bit set but the
/// last, and the count stops at the first byte without it.
proof fn lemma_vlq_length(b: Seq<u8>, i: int)
    requires
        0 <= i <= b.len(),
        forall|k: int| 0 <= k < i ==> b[k] >= 0x80,
    ensures
        i < b.len() && b[i] < 0x80 ==> vlq_length(b) == i + 1,
        i == b.len() ==> vlq_length(b) == b.len(),
    decreases i,
{
    if i > 0 {
        lemma_vlq_length(b.drop_first(), i - 1);
    }
}

impl Vlq {
    /// Reads a variable length quantity from the front of `possible_bytes`.
    pub fn from_bytes(possible_bytes: &[u8]) -> (r: Self)
        ensures
            r.length == vlq_length(possible_bytes@),
            r.value == vlq_value(possible_bytes@, r.length as nat),
            r.length <= possible_bytes@.len(),
            possible_bytes@.len() > 0 ==> r.length >= 1,
    {
        let mut val: u32 = 0;
        let mut len: usize = 0;
        let n = possible_bytes.len();
        let mut stop = false;
        while len < n && !stop
            invariant
                len <= n,
                n == possible_bytes@.len(),
                val == vlq_value(possible_bytes@, len as nat),
                forall|k: int| 0 <= k < len - 1 ==> possible_bytes@[k] >= 0x80,
                !stop ==> forall|k: int| 0 <= k < len ==> possible_bytes@[k] >= 0x80,
                stop ==> len >= 1 && possible_bytes@[len - 1] < 0x80,
            decreases n - len + (if stop { 0int } else { 1int }),
        {
            let byte = possible_bytes[len];
            let actual_byte = (byte & 0b01111111) as u32;
            assert(byte & 0x7f == byte % 128) by (bit_vector);
            assert(((val << 7u32) | actual_byte) == ((val * 128 + actual_byte) % 0x1_0000_0000)
                as u32) by (bit_vector)
                requires
                    actual_byte < 128,
            ;
            val = (val << 7) | actual_byte;
            len += 1;
            assert(byte & 0x80 == 0 <==> byte < 0x80) by (bit_vector);
            if byte & 0b10000000 == 0b00000000 {
                stop = true;
            }
        }
        proof {
            if stop {
                lemma_vlq_length(possible_bytes@, len - 1);
            } else {
                lemma_vlq_length(possible_bytes@, len as int);
            }
        }
        Vlq { value: val, length: len }
    }
}

/// The number that four bytes from `at` on write, most significant first.
pub open spec fn be32(b: Seq<u8>, at: int) -> nat {
    (b[at] * 0x1000000 + b[at + 1] * 0x10000 + b[at + 2] * 0x100 + b[at + 3]) as nat
}

/// The number that two bytes from `at` on write, most significant first.
pub open spec fn be16(b: Seq<u8>, at: int) -> nat {
    (b[at] * 0x100 + b[at + 1]) as nat
}

/// Reads a big-endian `u32` from `b[at..at + 4]`, as `u32::from_be_bytes`.
fn read_be32(b: &[u8], at: usize) -> (r: u32)
    requires
        at + 4 <= b@.len(),
    ensures
        r == be32(b@, at as int),
{
    (b[at] as u32) * 0x1000000 + (b[at + 1] as u32) * 0x10000 + (b[at + 2] as u32) * 0x100 + (
    b[at + 3] as u32)
}

/// Reads a big-endian `u16` from `b[at..at + 2]`, as `u16::from_be_bytes`.
fn read_be16(b: &[u8], at: usize) -> (r: u16)
    requires
        at + 2 <= b@.len(),
    ensures
        r == be16(b@, at as int),
{
    (b[at] as u16) * 0x100 + (b[at + 1] as u16)
}

/// The header chunk of a MIDI file.
pub struct HeaderTrack {
    /// `MThd` in a well-formed file.
    pub flag: [u8; 4],
    /// The length of the header's data.
    pub length: u32,
    /// The file format.
    pub mode: u16,
    pub num_tracks: u16,
    /// Ticks per quarter note.
    pub tpq: u16,
}

/// A chunk of a MIDI file.
pub struct Track {
    /// `MTrk` for a track.
    pub flag: [u8; 4],
    pub length: u32,
    pub data: Vec<u8>,
}

/// A chunk as plain values.
pub struct TrackView {
    pub flag: Seq<u8>,
    pub length: nat,
    pub data: Seq<u8>,
}

impl View for Track {
    type V = TrackView;

    open spec fn view(&self) -> TrackView {
        TrackView { flag: self.flag@, length: self.length as nat, data: self.data@ }
    }
}

/// The chunks as plain values.
pub open spec fn track_views(ts: Seq<Track>) -> Seq<TrackView> {
    ts.map_values(|t: Track| t@)
}

/// The four bytes of a header chunk's flag, `MThd`.
pub open spec fn header_flag() -> Seq<u8> {
    seq![0x4Du8, 0x54u8, 0x68u8, 0x64u8]
}

/// The four bytes of a track chunk's flag, `MTrk`.
pub open spec fn track_flag() -> Seq<u8> {
    seq![0x4Du8, 0x54u8, 0x72u8, 0x6Bu8]
}

/// The end-of-track event, with which a track's data ends.
pub open spec fn end_of_track() -> Seq<u8> {
    seq![0x00u8, 0xFFu8, 0x2Fu8, 0x00u8]
}

/// `n` chunks stand one after the other in `b` from `off` on, each an
/// eight-byte head (flag, then length) and the data that the length counts.
pub open spec fn chunks_fit(b: Seq<u8>, off: int, n: nat) -> bool
    decreases n,
{
    n == 0 || {
        &&& off + 8 <= b.len()
        &&& off + 8 + be32(b, off + 4) <= b.len()
        &&& chunks_fit(b, off + 8 + be32(b, off + 4), (n - 1) as nat)
    }
}

/// The `n` chunks from `off` on.
pub open spec fn chunks_at(b: Seq<u8>, off: int, n: nat) -> Seq<TrackView>
    decreases n,
{
    if n == 0 {
        seq![]
    } else {
        let len = be32(b, off + 4);
        seq![
            TrackView {
                flag: b.subrange(off, off + 4),
                length: len,
                data: b.subrange(off + 8, off + 8 + len),
            },
        ] + chunks_at(b, off + 8 + len, (n - 1) as nat)
    }
}

/// A chunk is a track that ends with the end-of-track event.
pub open spec fn valid_track(t: TrackView) -> bool {
    &&& t.flag == track_flag()
    &&& t.data.len() >= 4
    &&& t.data.subrange(t.data.len() - 4, t.data.len() as int) == end_of_track()
}

/// The index of the first chunk that is not a valid track.
pub open spec fn first_invalid_track(ts: Seq<TrackView>) -> Option<int>
    decreases ts.len(),
{
    if ts.len() == 0 {
        None
    } else if !valid_track(ts[0]) {
        Some(0)
    } else {
        match first_invalid_track(ts.drop_first()) {
            Some(i) => Some(i + 1),
            None => None,
        }
    }
}

/// Why a MIDI file is refused.
#[derive(Clone, Copy, Debug, PartialEq, Eq, Structural)]
pub enum MidiError {
    /// The header flag is not `MThd`.
    HeaderFlag,
    /// The chunk of this index has an invalid flag or no end command.
    InvalidChunk(usize),
}

/// A MIDI file: its header and its chunks.
pub struct MidiFile {
    pub header: HeaderTrack,
    pub tracks: Vec<Track>,
}

/// The bytes can be read without running off their end: a full header and,
/// when its flag is right, the chunks it announces after it.
pub open spec fn midi_layout_ok(b: Seq<u8>) -> bool {
    &&& b.len() >= 14
    &&& b.subrange(0, 4) == header_flag() ==> {
        &&& be32(b, 4) + 8 <= u32::MAX
        &&& chunks_fit(b, be32(b, 4) + 8int, be16(b, 10))
    }
}

/// What reading the bytes of a MIDI file gives: an error for a wrong header
/// flag or for the first chunk that is not a valid track, else the chunks.
pub open spec fn midi_result(b: Seq<u8>) -> Result<Seq<TrackView>, MidiError> {
    if b.subrange(0, 4) != header_flag() {
        Err(MidiError::HeaderFlag)
    } else {
        let tracks = chunks_at(b, be32(b, 4) + 8int, be16(b, 10));
        match first_invalid_track(tracks) {
            Some(i) => Err(MidiError::InvalidChunk(i as usize)),
            None => Ok(tracks),
        }
    }
}

impl HeaderTrack {
    /// Reads the header chunk from the first fourteen bytes.
    pub fn from_bytes(bytes: &[u8]) -> (r: Self)
        requires
            bytes@.len() >= 14,
        ensures
            r.flag@ == bytes@.subrange(0, 4),
            r.length == be32(bytes@, 4),
            r.mode == be16(bytes@, 8),
            r.num_tracks == be16(bytes@, 10),
            r.tpq == be16(bytes@, 12),
    {
        let flag = [bytes[0], bytes[1], bytes[2], bytes[3]];
        assert(flag@ =~= bytes@.subrange(0, 4));
        HeaderTrack {
            flag,
            length: read_be32(bytes, 4),
            mode: read_be16(bytes, 8),
            num_tracks: read_be16(bytes, 10),
            tpq: read_be16(bytes, 12),
        }
    }
}

proof fn lemma_track_views_push(ts: Seq<Track>, t: Track)
    ensures
        track_views(ts.push(t)) == track_views(ts).push(t@),
{
    assert(track_views(ts.push(t)) =~= track_views(ts).push(t@));
}

/// Reads the `n` chunks that stand one after the other from `start` on.
fn read_chunks(bytes: &[u8], start: usize, n: u16) -> (r: Vec<Track>)
    requires
        chunks_fit(bytes@, start as int, n as nat),
    ensures
        track_views(r@) == chunks_at(bytes@, start as int, n as nat),
{
    let mut off = start;
    let mut tracks: Vec<Track> = Vec::new();
    let mut t: u16 = 0;
    let blen = bytes.len();
    assert(track_views(tracks@) =~= Seq::<TrackView>::empty());
    while t < n
        invariant
            t <= n,
            blen == bytes@.len(),
            chunks_fit(bytes@, off as int, (n - t) as nat),
            chunks_at(bytes@, start as int, n as nat) == track_views(tracks@) + chunks_at(
                bytes@,
                off as int,
                (n - t) as nat,
            ),
        decreases n - t,
    {
        let l = read_be32(bytes, off + 4);
        let flag = [bytes[off], bytes[off + 1], bytes[off + 2], bytes[off + 3]];
        assert(flag@ =~= bytes@.subrange(off as int, off + 4));
        let end = off + 8 + l as usize;
        let data = slice_to_vec(slice_subrange(bytes, off + 8, end));
        let track = Track { flag, length: l, data };
        proof {
            lemma_track_views_push(tracks@, track);
            assert(chunks_at(bytes@, off as int, (n - t) as nat) == seq![track@] + chunks_at(
                bytes@,
                end as int,
                (n - t - 1) as nat,
            ));
            assert(track_views(tracks@).push(track@) + chunks_at(
                bytes@,
                end as int,
                (n - t - 1) as nat,
            ) =~= track_views(tracks@) + (seq![track@] + chunks_at(
                bytes@,
                end as int,
                (n - t - 1) as nat,
            )));
        }
        tracks.push(track);
        off = end;
        t += 1;
    }
    assert(chunks_at(bytes@, off as int, 0) =~= Seq::<TrackView>::empty());
    assert(track_views(tracks@) + Seq::<TrackView>::empty() =~= track_views(tracks@));
    tracks
}

/// Whether a chunk is a track that ends with the end-of-track event.
fn is_valid_track(t: &Track) -> (r: bool)
    ensures
        r == valid_track(t@),
{
    let n = t.data.len();
    let flag_ok = t.flag[0] == 0x4D && t.flag[1] == 0x54 && t.flag[2] == 0x72 && t.flag[3]
        == 0x6B;
    assert(flag_ok == (t.flag@ =~= track_flag()));
    if !flag_ok || n < 4 {
        return false;
    }
    let r = t.data[n - 4] == 0x00 && t.data[n - 3] == 0xFF && t.data[n - 2] == 0x2F && t.data[n
        - 1] == 0x00;
    assert(r == (t.data@.subrange(n - 4, n as int) =~= end_of_track()));
    r
}

/// The first invalid chunk is found by looking past the valid ones before it.
proof fn lemma_first_invalid_track(ts: Seq<TrackView>, m: int)
    requires
        0 <= m <= ts.len(),
        forall|k: int| 0 <= k < m ==> valid_track(ts[k]),
    ensures
        m < ts.len() && !valid_track(ts[m]) ==> first_invalid_track(ts) == Some(m),
        m == ts.len() ==> first_invalid_track(ts) == None::<int>,
    decreases m,
{
    if m > 0 {
        lemma_first_invalid_track(ts.drop_first(), m - 1);
    }
}

/// The index of the first chunk that is not a valid track.
fn find_invalid_track(tracks: &Vec<Track>) -> (r: Option<usize>)
    ensures
        r matches Some(i) ==> first_invalid_track(track_views(tracks@)) == Some(i as int),
        r is None ==> first_invalid_track(track_views(tracks@)) is None,
{
    let ghost tv = track_views(tracks@);
    let n = tracks.len();
    let mut i: usize = 0;
    while i < n
        invariant
            i <= n,
            n == tracks@.len(),
            tv == track_views(tracks@),
            forall|k: int| 0 <= k < i ==> valid_track(tv[k]),
        decreases n - i,
    {
        if !is_valid_track(&tracks[i]) {
            proof {
                lemma_first_invalid_track(tv, i as int);
            }
            return Some(i);
        }
        i += 1;
    }
    proof {
        lemma_first_invalid_track(tv, n as int);
    }
    None
}

/// Reads a MIDI file: checks the header flag, reads the chunks that the
/// header announces, and checks that every one is a track ending with the
/// end-of-track event.
pub fn read_midi(bytes: &[u8]) -> (r: Result<MidiFile, MidiError>)
    requires
        midi_layout_ok(bytes@),
    ensures
        r matches Ok(f) ==> midi_result(bytes@) == Ok::<Seq<TrackView>, MidiError>(
            track_views(f.tracks@),
        ) && f.header.flag@ == header_flag() && f.header.length == be32(bytes@, 4)
            && f.header.mode == be16(bytes@, 8) && f.header.num_tracks == be16(bytes@, 10)
            && f.header.tpq == be16(bytes@, 12),
        r matches Err(e) ==> midi_result(bytes@) == Err::<Seq<TrackView>, MidiError>(e),
{
    let header = HeaderTrack::from_bytes(bytes);
    if !(header.flag[0] == 0x4D && header.flag[1] == 0x54 && header.flag[2] == 0x68
        && header.flag[3] == 0x64) {
        assert(bytes@.subrange(0, 4) != header_flag()) by {
            if bytes@.subrange(0, 4) == header_flag() {
                assert(header.flag@[0] == 0x4D && header.flag@[1] == 0x54 && header.flag@[2]
                    == 0x68 && header.flag@[3] == 0x64);
            }
        }
        return Err(MidiError::HeaderFlag);
    }
    assert(bytes@.subrange(0, 4) =~= header_flag());
    let start = (header.length + 8) as usize;
    let tracks = read_chunks(bytes, start, header.num_tracks);
    match find_invalid_track(&tracks) {
        Some(i) => Err(MidiError::InvalidChunk(i)),
        None => Ok(MidiFile { header, tracks }),
    }
}

/// What the walk through a track does after one message.
#[derive(Clone, Copy, Debug, PartialEq, Eq, Structural)]
pub enum Step {
    /// Go on at this offset (which may be the same one again).
    Next(usize),
    /// The end-of-track meta event: the track is done.
    EndOfTrack,
    /// A meta event of a kind the walk does not know, with its length.
    UnknownMeta { kind: u8, length: usize },
    /// A status byte the walk does not know.
    UnknownStatus(u8),
}

/// One message read at an offset of a track's data: its delta time, the
/// number of bytes the delta took, its status byte, and where to go on.
#[derive(Clone, Copy, Debug, PartialEq, Eq, Structural)]
pub struct MessageStep {
    pub delta: u32,
    pub delta_length: usize,
    pub status: u8,
    pub step: Step,
}

/// The step as plain values.
pub enum StepView {
    Next(int),
    EndOfTrack,
    UnknownMeta(u8, int),
    UnknownStatus(u8),
}

impl View for Step {
    type V = StepView;

    open spec fn view(&self) -> StepView {
        match *self {
            Step::Next(o) => StepView::Next(o as int),
            Step::EndOfTrack => StepView::EndOfTrack,
            Step::UnknownMeta { kind, length } => StepView::UnknownMeta(kind, length as int),
            Step::UnknownStatus(s) => StepView::UnknownStatus(s),
        }
    }
}

/// The number of bytes of the delta time of the message at `off`, read from
/// the four bytes there.
pub open spec fn delta_length_at(d: Seq<u8>, off: int) -> int {
    vlq_length(d.subrange(off, off + 4)) as int
}

/// Where the walk goes from the message at `off`, by its status byte: past
/// the message for the events it knows the size of, to the same offset for
/// those it does not skip, out of the track at its end or at what it does
/// not know.
pub open spec fn step_at(d: Seq<u8>, off: int) -> StepView {
    let len = delta_length_at(d, off);
    let s = d[off + len];
    if 0x80 <= s <= 0xAF {
        StepView::Next(off + len + 3)
    } else if 0xB0 <= s <= 0xBF {
        if d[off + len + 1] == 0 {
            StepView::Next(off + len + 6)
        } else {
            StepView::Next(off)
        }
    } else if 0xC0 <= s <= 0xDF {
        StepView::Next(off + len + 2)
    } else if 0xE0 <= s <= 0xEF {
        StepView::Next(off + len + 4)
    } else if s == 0xF0 || s == 0xF1 || s == 0xF3 || (0xF7 <= s <= 0xFC) {
        StepView::Next(off + len)
    } else if s == 0xF2 {
        StepView::Next(off + len + 3)
    } else if s == 0xF4 || s == 0xF5 {
        StepView::Next(off)
    } else if s == 0xF6 {
        StepView::Next(off + len + 2)
    } else if s == 0xFF {
        let kind = d[off + len + 1];
        let meta_len = d[off + len + 2] + len + 3;
        if kind == 0x00 || kind == 0x20 || kind == 0x54 || kind == 0x7F {
            StepView::Next(off)
        } else if (0x01 <= kind <= 0x07) || kind == 0x51 || kind == 0x58 || kind == 0x59 {
            StepView::Next(off + meta_len)
        } else if kind == 0x2F {
            StepView::EndOfTrack
        } else {
            StepView::UnknownMeta(kind, meta_len)
        }
    } else {
        StepView::UnknownStatus(s)
    }
}

/// The message at `off` can be read: the four bytes of its delta, its status
/// byte and the bytes its status makes the walk look at lie within the
/// data, and the offset to go on at fits in a `usize`.
pub open spec fn step_ok(d: Seq<u8>, off: int) -> bool {
    &&& 0 <= off
    &&& off + 4 <= d.len()
    &&& off + delta_length_at(d, off) < d.len()
    &&& 0xB0 <= d[off + delta_length_at(d, off)] <= 0xBF ==> off + delta_length_at(d, off) + 1
        < d.len()
    &&& d[off + delta_length_at(d, off)] == 0xFF ==> off + delta_length_at(d, off) + 2 < d.len()
    &&& step_at(d, off) matches StepView::Next(o) ==> o <= usize::MAX
}

/// Where the walk goes from the message at `off`, whose delta takes `len`
/// bytes and whose status byte is `status`; `None` when the offset to go on
/// at does not fit in a `usize`.
fn step_from(d: &[u8], off: usize, len: usize, status: u8) -> (r: Option<Step>)
    requires
        len == delta_length_at(d@, off as int),
        len <= 4,
        off + len < d@.len(),
        status == d@[off + len],
        0xB0 <= status <= 0xBF ==> off + len + 1 < d@.len(),
        status == 0xFF ==> off + len + 2 < d@.len(),
    ensures
        r matches Some(st) ==> st@ == step_at(d@, off as int),
        r is None <==> (step_at(d@, off as int) matches StepView::Next(o) && o > usize::MAX),
{
    let n = d.len();
    let base = off + len;
    if 0x80 <= status && status <= 0xAF {
        match base.checked_add(3) {
            Some(o) => Some(Step::Next(o)),
            None => None,
        }
    } else if 0xB0 <= status && status <= 0xBF {
        if d[base + 1] == 0 {
            match base.checked_add(6) {
                Some(o) => Some(Step::Next(o)),
                None => None,
            }
        } else {
            Some(Step::Next(off))
        }
    } else if 0xC0 <= status && status <= 0xDF {
        match base.checked_add(2) {
            Some(o) => Some(Step::Next(o)),
            None => None,
        }
    } else if 0xE0 <= status && status <= 0xEF {
        match base.checked_add(4) {
            Some(o) => Some(Step::Next(o)),
            None => None,
        }
    } else if status == 0xF0 || status == 0xF1 || status == 0xF3 || (0xF7 <= status && status
        <= 0xFC) {
        Some(Step::Next(base))
    } else if status == 0xF2 {
        match base.checked_add(3) {
            Some(o) => Some(Step::Next(o)),
            None => None,
        }
    } else if status == 0xF4 || status == 0xF5 {
        Some(Step::Next(off))
    } else if status == 0xF6 {
        match base.checked_add(2) {
            Some(o) => Some(Step::Next(o)),
            None => None,
        }
    } else if status == 0xFF {
        let kind = d[base + 1];
        let meta_len = d[base + 2] as usize + len + 3;
        if kind == 0x00 || kind == 0x20 || kind == 0x54 || kind == 0x7F {
            Some(Step::Next(off))
        } else if (0x01 <= kind && kind <= 0x07) || kind == 0x51 || kind == 0x58 || kind == 0x59 {
            match off.checked_add(meta_len) {
                Some(o) => Some(Step::Next(o)),
                None => None,
            }
        } else if kind == 0x2F {
            Some(Step::EndOfTrack)
        } else {
            Some(Step::UnknownMeta { kind, length: meta_len })
        }
    } else {
        Some(Step::UnknownStatus(status))
    }
}

/// The delta time at `offset`, read from the four bytes there.
fn delta_at(d: &[u8], offset: usize) -> (r: Vlq)
    requires
        offset + 4 <= d@.len(),
    ensures
        r.length == delta_length_at(d@, offset as int),
        r.value == vlq_value(d@.subrange(offset as int, offset + 4), r.length as nat),
        r.length <= 4,
{
    let window = [d[offset], d[offset + 1], d[offset + 2], d[offset + 3]];
    let w = array_as_slice(&window);
    assert(w@ =~= d@.subrange(offset as int, offset + 4));
    Vlq::from_bytes(w)
}

/// Reads the message at `offset` of a track's data and tells where the walk
/// through the track goes on.
pub fn next_message(d: &[u8], offset: usize) -> (r: MessageStep)
    requires
        step_ok(d@, offset as int),
    ensures
        r.delta_length == delta_length_at(d@, offset as int),
        r.delta == vlq_value(d@.subrange(offset as int, offset + 4), r.delta_length as nat),
        r.status == d@[offset + r.delta_length],
        r.step@ == step_at(d@, offset as int),
{
    let n = d.len();
    let vlq = delta_at(d, offset);
    let len = vlq.length;
    let status = d[offset + len];
    let step = step_from(d, offset, len, status).unwrap();
    MessageStep { delta: vlq.value, delta_length: len, status, step }
}

/// Whether the message at `offset` can be read, as `next_message` needs.
pub fn step_fits(d: &[u8], offset: usize) -> (r: bool)
    ensures
        r == step_ok(d@, offset as int),
{
    let n = d.len();
    if offset > n || n - offset < 4 {
        return false;
    }
    let len = delta_at(d, offset).length;
    if offset + len >= n {
        return false;
    }
    let status = d[offset + len];
    if 0xB0 <= status && status <= 0xBF && n - (offset + len) <= 1 {
        return false;
    }
    if status == 0xFF && n - (offset + len) <= 2 {
        return false;
    }
    step_from(d, offset, len, status).is_some()
}

/// The offsets of the `n` chunks from `off` on.
pub open spec fn chunk_offsets_from(b: Seq<u8>, off: int, n: nat) -> Seq<int>
    decreases n,
{
    if n == 0 {
        seq![]
    } else {
        seq![off] + chunk_offsets_from(b, off + 8 + be32(b, off + 4), (n - 1) as nat)
    }
}

/// The offsets at which the chunks that the header announces start.
pub fn chunk_offsets(bytes: &[u8]) -> (r: Vec<usize>)
    requires
        midi_layout_ok(bytes@),
        bytes@.subrange(0, 4) == header_flag(),
    ensures
        r@.map_values(|o: usize| o as int) == chunk_offsets_from(
            bytes@,
            be32(bytes@, 4) + 8int,
            be16(bytes@, 10),
        ),
{
    let n = read_be16(bytes, 10);
    let start = (read_be32(bytes, 4) + 8) as usize;
    let blen = bytes.len();
    let mut off = start;
    let mut r: Vec<usize> = Vec::new();
    let mut t: u16 = 0;
    assert(r@.map_values(|o: usize| o as int) =~= Seq::<int>::empty());
    while t < n
        invariant
            t <= n,
            blen == bytes@.len(),
            chunks_fit(bytes@, off as int, (n - t) as nat),
            chunk_offsets_from(bytes@, start as int, n as nat) == r@.map_values(
                |o: usize| o as int,
            ) + chunk_offsets_from(bytes@, off as int, (n - t) as nat),
        decreases n - t,
    {
        let l = read_be32(bytes, off + 4) as usize;
        let next = off + 8 + l;
        let ghost old_r = r@;
        r.push(off);
        assert(r@.map_values(|o: usize| o as int) =~= old_r.map_values(|o: usize| o as int).push(
            off as int,
        ));
        assert(chunk_offsets_from(bytes@, off as int, (n - t) as nat) == seq![off as int]
            + chunk_offsets_from(bytes@, next as int, (n - t - 1) as nat));
        assert(old_r.map_values(|o: usize| o as int).push(off as int) + chunk_offsets_from(
            bytes@,
            next as int,
            (n - t - 1) as nat,
        ) =~= old_r.map_values(|o: usize| o as int) + (seq![off as int] + chunk_offsets_from(
            bytes@,
            next as int,
            (n - t - 1) as nat,
        )));
        off = next;
        t += 1;
    }
    assert(chunk_offsets_from(bytes@, off as int, 0) =~= Seq::<int>::empty());
    assert(r@.map_values(|o: usize| o as int) + Seq::<int>::empty() =~= r@.map_values(
        |o: usize| o as int,
    ));
    r
}

/// Whether `n` chunks stand one after the other in `bytes` from `start` on.
fn chunks_fit_from(bytes: &[u8], start: usize, n: u16) -> (r: bool)
    ensures
        r == chunks_fit(bytes@, start as int, n as nat),
{
    let blen = bytes.len();
    let mut off = start;
    let mut t: u16 = 0;
    while t < n
        invariant
            t <= n,
            blen == bytes@.len(),
            chunks_fit(bytes@, start as int, n as nat) == chunks_fit(
                bytes@,
                off as int,
                (n - t) as nat,
            ),
        decreases n - t,
    {
        if off > blen || blen - off < 8 {
            return false;
        }
        let l = read_be32(bytes, off + 4) as usize;
        if l > blen - off - 8 {
            return false;
        }
        off = off + 8 + l;
        t += 1;
    }
    true
}

/// Whether the bytes can be read as `read_midi` needs.
pub fn midi_layout_fits(bytes: &[u8]) -> (r: bool)
    ensures
        r == midi_layout_ok(bytes@),
{
    if bytes.len() < 14 {
        return false;
    }
    if !(bytes[0] == 0x4D && bytes[1] == 0x54 && bytes[2] == 0x68 && bytes[3] == 0x64) {
        assert(bytes@.subrange(0, 4) != header_flag()) by {
            if bytes@.subrange(0, 4) == header_flag() {
                assert(bytes@.subrange(0, 4)[0] == 0x4D);
                assert(bytes@.subrange(0, 4)[1] == 0x54);
                assert(bytes@.subrange(0, 4)[2] == 0x68);
                assert(bytes@.subrange(0, 4)[3] == 0x64);
            }
        }
        return true;
    }
    assert(bytes@.subrange(0, 4) =~= header_flag());
    let length = read_be32(bytes, 4);
    if length > u32::MAX - 8 {
        return false;
    }
    chunks_fit_from(bytes, (length + 8) as usize, read_be16(bytes, 10))
}

/// With no invalid chunk found, every chunk is valid.
proof fn lemma_no_invalid_track(ts: Seq<TrackView>)
    ensures
        first_invalid_track(ts) is None ==> forall|i: int| 0 <= i < ts.len() ==> valid_track(ts[i]),
    decreases ts.len(),
{
    if ts.len() > 0 {
        lemma_no_invalid_track(ts.drop_first());
        if first_invalid_track(ts) is None {
            assert forall|i: int| 0 <= i < ts.len() implies valid_track(ts[i]) by {
                if i > 0 {
                    assert(ts[i] == ts.drop_first()[i - 1]);
                }
            }
        }
    }
}

/// Every chunk of a file that is read without error is a track that ends
/// with the end-of-track event.
pub proof fn law_accepted_tracks_are_valid(b: Seq<u8>)
    ensures
        midi_result(b) matches Ok(ts) ==> forall|i: int|
            0 <= i < ts.len() ==> valid_track(#[trigger] ts[i]),
{
    if b.subrange(0, 4) == header_flag() {
        lemma_no_invalid_track(chunks_at(b, be32(b, 4) + 8int, be16(b, 10)));
    }
}

/// A byte below 0x80 is a whole quantity by itself: it takes one byte and
/// reads as its own value.
pub proof fn law_single_byte_vlq(b: Seq<u8>)
    requires
        b.len() > 0,
        b[0] < 0x80,
    ensures
        vlq_length(b) == 1,
        vlq_value(b, 1) == b[0],
{
    reveal_with_fuel(vlq_value, 2);
}

/// The bytes that write `v` ahead of its last base-128 digit: its other
/// digits, most significant first, each with the top bit set.
pub open spec fn vlq_lead(v: nat) -> Seq<u8>
    decreases v,
{
    if v == 0 {
        seq![]
    } else {
        vlq_lead(v / 128).push((v % 128 + 128) as u8)
    }
}

/// The variable length quantity that MIDI writes for `v`: its base-128
/// digits, most significant first, the top bit set on all but the last.
pub open spec fn vlq_encode(v: nat) -> Seq<u8> {
    vlq_lead(v / 128).push((v % 128) as u8)
}

/// Bytes that start with the lead of `w` have the top bit set there, and
/// read as `w` up to its end.
proof fn lemma_vlq_lead(w: nat, b: Seq<u8>)
    requires
        w < 0x1_0000_0000,
        vlq_lead(w).len() <= b.len(),
        b.subrange(0, vlq_lead(w).len() as int) == vlq_lead(w),
    ensures
        forall|k: int| 0 <= k < vlq_lead(w).len() ==> b[k] >= 0x80,
        vlq_value(b, vlq_lead(w).len()) == w,
    decreases w,
{
    if w > 0 {
        let front = vlq_lead(w / 128);
        let m = front.len();
        assert(vlq_lead(w) == front.push((w % 128 + 128) as u8));
        assert(b.subrange(0, m as int) =~= front) by {
            assert forall|k: int| 0 <= k < m implies b.subrange(0, m as int)[k] == front[k] by {
                assert(b.subrange(0, (m + 1) as int)[k] == vlq_lead(w)[k]);
            }
        }
        lemma_vlq_lead(w / 128, b);
        assert(b[m as int] == vlq_lead(w)[m as int]);
        assert(b[m as int] % 128 == w % 128);
        assert forall|k: int| 0 <= k < vlq_lead(w).len() implies b[k] >= 0x80 by {
            if k < m {
            } else {
                assert(k == m);
            }
        }
    }
}

/// The lead of a number below `128` to the power `j` takes at most `j`
/// bytes.
proof fn lemma_vlq_lead_len(w: nat, j: nat, bound: nat)
    requires
        w < bound,
        j == 0 ==> bound == 1,
        j == 1 ==> bound == 128,
        j == 2 ==> bound == 16384,
        j == 3 ==> bound == 2097152,
        j <= 3,
    ensures
        vlq_lead(w).len() <= j,
    decreases j,
{
    if w > 0 {
        if j == 1 {
            lemma_vlq_lead_len(w / 128, 0, 1);
        } else if j == 2 {
            lemma_vlq_lead_len(w / 128, 1, 128);
        } else if j == 3 {
            lemma_vlq_lead_len(w / 128, 2, 16384);
        }
    }
}

/// Reading the MIDI encoding of a value below 2^28, whatever follows it,
/// gives the value back, with the encoding's length of one to four bytes.
pub proof fn law_vlq_decodes_encoding(v: nat, tail: Seq<u8>)
    requires
        v < 0x1000_0000,
    ensures
        1 <= vlq_encode(v).len() <= 4,
        vlq_length(vlq_encode(v) + tail) == vlq_encode(v).len(),
        vlq_value(vlq_encode(v) + tail, vlq_encode(v).len()) == v,
{
    let e = vlq_encode(v);
    let lead = vlq_lead(v / 128);
    let m = lead.len();
    let b = e + tail;
    lemma_vlq_lead_len(v / 128, 3, 2097152);
    assert(b.subrange(0, m as int) =~= lead);
    lemma_vlq_lead(v / 128, b);
    assert(b[m as int] == (v % 128) as u8);
    lemma_vlq_length(b, m as int);
    assert(vlq_value(b, m + 1) == ((v / 128) * 128 + (v % 128) as u8 % 128) % 0x1_0000_0000);
}

/// A text meta event (kinds 0x01 to 0x07: text, copyright notice, track
/// name, instrument name, lyric, marker, cue point) is skipped whole: the
/// walk goes on after its delta, its three leading bytes (0xFF, the kind,
/// the length) and the number of data bytes its length byte gives. So are
/// the tempo (0x51), time signature (0x58) and key signature (0x59) events.
pub proof fn law_sized_meta_events_are_skipped(d: Seq<u8>, off: int)
    requires
        d[off + delta_length_at(d, off)] == 0xFF,
        ({
            let kind = d[off + delta_length_at(d, off) + 1];
            (0x01 <= kind <= 0x07) || kind == 0x51 || kind == 0x58 || kind == 0x59
        }),
    ensures
        step_at(d, off) == StepView::Next(
            off + delta_length_at(d, off) + 3 + d[off + delta_length_at(d, off) + 2],
        ),
{
}

/// The end-of-track meta event (0xFF 0x2F) ends the walk; the sequence
/// number (0x00), channel prefix (0x20), SMPTE offset (0x54) and
/// sequencer-specific (0x7F) events are not skipped, and any other kind of
/// meta event stops the walk as unknown, with its kind and its length
/// counted from the delta on.
pub proof fn law_other_meta_events(d: Seq<u8>, off: int)
    requires
        d[off + delta_length_at(d, off)] == 0xFF,
    ensures
        ({
            let len = delta_length_at(d, off);
            let kind = d[off + len + 1];
            &&& kind == 0x2F ==> step_at(d, off) == StepView::EndOfTrack
            &&& (kind == 0x00 || kind == 0x20 || kind == 0x54 || kind == 0x7F) ==> step_at(d, off)
                == StepView::Next(off)
            &&& !((0x01 <= kind <= 0x07) || kind == 0x51 || kind == 0x58 || kind == 0x59 || kind
                == 0x2F || kind == 0x00 || kind == 0x20 || kind == 0x54 || kind == 0x7F)
                ==> step_at(d, off) == StepView::UnknownMeta(kind, d[off + len + 2] + len + 3)
        }),
{
}

/// Channel messages are skipped by their size after the delta: note off,
/// note on and key pressure (0x80 to 0xAF) take three bytes, program change
/// and channel pressure (0xC0 to 0xDF) two, pitch wheel (0xE0 to 0xEF) four;
/// a control change (0xB0 to 0xBF) takes six when its controller byte is
/// zero and is not skipped otherwise.
pub proof fn law_channel_messages_are_skipped(d: Seq<u8>, off: int)
    ensures
        ({
            let len = delta_length_at(d, off);
            let s = d[off + len];
            &&& 0x80 <= s <= 0xAF ==> step_at(d, off) == StepView::Next(off + len + 3)
            &&& 0xC0 <= s <= 0xDF ==> step_at(d, off) == StepView::Next(off + len + 2)
            &&& 0xE0 <= s <= 0xEF ==> step_at(d, off) == StepView::Next(off + len + 4)
            &&& 0xB0 <= s <= 0xBF && d[off + len + 1] == 0 ==> step_at(d, off) == StepView::Next(
                off + len + 6,
            )
            &&& 0xB0 <= s <= 0xBF && d[off + len + 1] != 0 ==> step_at(d, off) == StepView::Next(
                off,
            )
        }),
{
}

/// System messages: song position (0xF2) takes three bytes after the delta
/// and tune request (0xF6) two; system exclusive, time code, song select,
/// end of exclusive and the real-time messages (0xF0, 0xF1, 0xF3, 0xF7 to
/// 0xFC) none; 0xF4 and 0xF5 are not skipped; a status byte below 0x80, or
/// 0xFD or 0xFE, stops the walk as unknown.
pub proof fn law_system_messages(d: Seq<u8>, off: int)
    ensures
        ({
            let len = delta_length_at(d, off);
            let s = d[off + len];
            &&& s == 0xF2 ==> step_at(d, off) == StepView::Next(off + len + 3)
            &&& s == 0xF6 ==> step_at(d, off) == StepView::Next(off + len + 2)
            &&& (s == 0xF0 || s == 0xF1 || s == 0xF3 || (0xF7 <= s <= 0xFC)) ==> step_at(d, off)
                == StepView::Next(off + len)
            &&& (s == 0xF4 || s == 0xF5) ==> step_at(d, off) == StepView::Next(off)
            &&& (s < 0x80 || s == 0xFD || s == 0xFE) ==> step_at(d, off) == StepView::UnknownStatus(
                s,
            )
        }),
{
}

/// The number of chunks read is the number asked for.
proof fn lemma_chunks_at_len(b: Seq<u8>, off: int, n: nat)
    ensures
        chunks_at(b, off, n).len() == n,
    decreases n,
{
    if n > 0 {
        lemma_chunks_at_len(b, off + 8 + be32(b, off + 4), (n - 1) as nat);
    }
}

/// The index that `first_invalid_track` gives is that of an invalid chunk
/// with only valid ones before it.
proof fn lemma_first_invalid_found(ts: Seq<TrackView>)
    ensures
        first_invalid_track(ts) matches Some(i) ==> 0 <= i < ts.len() && !valid_track(ts[i])
            && forall|k: int| 0 <= k < i ==> valid_track(#[trigger] ts[k]),
    decreases ts.len(),
{
    if ts.len() > 0 && valid_track(ts[0]) {
        let rest = ts.drop_first();
        lemma_first_invalid_found(rest);
        if let Some(i) = first_invalid_track(ts) {
            assert forall|k: int| 0 <= k < i implies valid_track(#[trigger] ts[k]) by {
                if k > 0 {
                    assert(ts[k] == rest[k - 1]);
                }
            }
            assert(ts[i] == rest[i - 1]);
        }
    }
}

/// A chunk is a valid track exactly when its flag is `MTrk` and its data
/// ends with the bytes 0x00 0xFF 0x2F 0x00.
pub proof fn law_valid_track(t: TrackView)
    ensures
        valid_track(t) <==> ({
            let n = t.data.len() as int;
            &&& t.flag == seq![0x4Du8, 0x54u8, 0x72u8, 0x6Bu8]
            &&& n >= 4
            &&& t.data[n - 4] == 0x00
            &&& t.data[n - 3] == 0xFF
            &&& t.data[n - 2] == 0x2F
            &&& t.data[n - 1] == 0x00
        }),
{
    let n = t.data.len() as int;
    if n >= 4 {
        let tail = t.data.subrange(n - 4, n);
        if tail == end_of_track() {
            assert(tail[0] == 0x00 && tail[1] == 0xFF && tail[2] == 0x2F && tail[3] == 0x00);
        }
        if t.data[n - 4] == 0x00 && t.data[n - 3] == 0xFF && t.data[n - 2] == 0x2F && t.data[n
            - 1] == 0x00 {
            assert(tail =~= end_of_track());
        }
    }
}

/// A file is refused for its header exactly when its first four bytes are
/// not `MThd`. Otherwise the chunks are those the header announces, as many
/// as it says, from the end of the header on; the file is refused at the
/// first of them that is not a valid track, all before it being valid, and
/// accepted with all of them when every one is valid.
pub proof fn law_refusals(b: Seq<u8>)
    ensures
        (midi_result(b) == Err::<Seq<TrackView>, MidiError>(MidiError::HeaderFlag))
            <==> b.subrange(0, 4) != seq![0x4Du8, 0x54u8, 0x68u8, 0x64u8],
        ({
            let ts = chunks_at(b, be32(b, 4) + 8int, be16(b, 10));
            &&& midi_result(b) matches Err(MidiError::InvalidChunk(i)) ==> i < ts.len()
                && !valid_track(ts[i as int]) && forall|k: int|
                0 <= k < i ==> valid_track(#[trigger] ts[k])
            &&& midi_result(b) matches Ok(r) ==> r == ts && r.len() == be16(b, 10) && forall|
                k: int,
            |
                0 <= k < r.len() ==> valid_track(#[trigger] r[k])
        }),
{
    let ts = chunks_at(b, be32(b, 4) + 8int, be16(b, 10));
    lemma_chunks_at_len(b, be32(b, 4) + 8int, be16(b, 10));
    lemma_first_invalid_found(ts);
    law_accepted_tracks_are_valid(b);
}

} // verus!
