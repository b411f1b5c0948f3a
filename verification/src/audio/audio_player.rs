use vstd::prelude::*;

verus! {

/// A player for a buffer of interleaved PCM samples, fed to the sound device
/// one buffer at a time.
///
/// * `samples`: the raw samples, all channels interleaved;
/// * `sample_rate`: samples per second and channel (usually 44100);
/// * `channels`: the number of channels;
/// * `finished`: set once playback has run past the last sample.
pub struct AudioPlayer<S> {
    pub samples: Vec<S>,
    pub sample_rate: u32,
    pub channels: usize,
    pub finished: bool,
    whar_am_i: usize,
}

/// The format the sound device is asked for: samples per second and the
/// number of channels, in the integer types the device takes.
#[derive(Clone, Copy, Debug, PartialEq, Eq, Structural)]
pub struct DeviceSpec {
    pub freq: i32,
    pub channels: u8,
}

/// `n` copies of `silence`.
pub open spec fn silence_run<S>(n: nat, silence: S) -> Seq<S> {
    Seq::new(n, |i: int| silence)
}

impl<S: Copy> AudioPlayer<S> {
    /// The index of the next sample to play.
    pub closed spec fn pos(&self) -> nat {
        self.whar_am_i as nat
    }

    /// The samples held.
    pub closed spec fn sample_seq(&self) -> Seq<S> {
        self.samples@
    }

    /// The sample rate.
    pub closed spec fn rate(&self) -> u32 {
        self.sample_rate
    }

    /// The number of channels.
    pub closed spec fn channel_count(&self) -> usize {
        self.channels
    }

    /// Whether playback has run past the last sample.
    pub closed spec fn done(&self) -> bool {
        self.finished
    }

    /// The player with its cursor at `p`, all else the same.
    pub closed spec fn with_pos(self, p: nat) -> Self {
        AudioPlayer { whar_am_i: p as usize, ..self }
    }

    /// The player with its `finished` flag set to `d`, all else the same.
    pub closed spec fn with_done(self, d: bool) -> Self {
        AudioPlayer { finished: d, ..self }
    }

    /// The cursor does not stand past the end of the samples.
    pub open spec fn well_formed(&self) -> bool {
        self.pos() <= self.sample_seq().len()
    }

    /// The number of samples that two seconds move the cursor by.
    pub open spec fn two_seconds(&self) -> nat {
        (self.rate() * 2) as nat
    }

    /// What the sound device receives from a buffer of `len` samples.
    pub open spec fn buffer_for(&self, len: nat, silence: S) -> Seq<S> {
        if self.done() {
            silence_run(len, silence)
        } else if self.pos() + len > self.sample_seq().len() {
            self.sample_seq().subrange(self.pos() as int, self.sample_seq().len() as int)
                + silence_run((self.pos() + len - self.sample_seq().len()) as nat, silence)
        } else {
            self.sample_seq().subrange(self.pos() as int, (self.pos() + len) as int)
        }
    }

    /// The player after a buffer of `len` samples was handed to the device:
    /// the cursor moves on by `len` while the whole buffer lies within the
    /// samples; a buffer that reaches past the end marks the player finished
    /// and leaves the cursor where it stood.
    pub open spec fn after_buffer(self, len: nat) -> Self {
        if self.done() {
            self
        } else if self.pos() + len > self.sample_seq().len() {
            self.with_done(true)
        } else {
            self.with_pos(self.pos() + len)
        }
    }

    /// The player after `forward_2s`.
    pub open spec fn after_forward_2s(self) -> Self {
        if self.pos() + self.two_seconds() > self.sample_seq().len() {
            self.with_done(true)
        } else {
            self.with_pos(self.pos() + self.two_seconds())
        }
    }

    /// The player after `back_2s`.
    pub open spec fn after_back_2s(self) -> Self {
        if self.pos() >= self.two_seconds() {
            self.with_pos((self.pos() - self.two_seconds()) as nat)
        } else {
            self.with_pos(0)
        }
    }

    /// The player after `restart`.
    pub open spec fn after_restart(self) -> Self {
        self.with_pos(0).with_done(false)
    }

    /// Creates a player at the start of `samples`, not finished.
    pub fn new(samples: Vec<S>, sample_rate: u32, channels: usize) -> (r: Self)
        ensures
            r.sample_seq() == samples@,
            r.rate() == sample_rate,
            r.channel_count() == channels,
            !r.done(),
            r.pos() == 0,
            r.well_formed(),
    {
        AudioPlayer { samples, sample_rate, channels, finished: false, whar_am_i: 0 }
    }

    /// The device format for this player: its sample rate as an `i32` and
    /// its channel count as a `u8`, each converted as `as` converts (keeping
    /// the low bits).
    pub fn playback_spec(&self) -> (r: DeviceSpec)
        ensures
            r.freq == self.rate() as i32,
            r.channels == self.channel_count() as u8,
    {
        DeviceSpec { freq: self.sample_rate as i32, channels: self.channels as u8 }
    }

    /// The index of the next sample to play.
    pub fn position(&self) -> (r: usize)
        ensures
            r == self.pos(),
    {
        self.whar_am_i
    }

    /// How far playback has come, as a fraction `(played, total)`: `(1, 1)`
    /// once finished, else the cursor over the number of samples.
    pub fn get_progress(&self) -> (r: (usize, usize))
        ensures
            self.done() ==> r == (1usize, 1usize),
            !self.done() ==> r.0 == self.pos() && r.1 == self.sample_seq().len(),
            self.well_formed() ==> r.0 <= r.1,
    {
        if self.finished {
            return (1, 1);
        }
        (self.whar_am_i, self.samples.len())
    }

    /// Moves the cursor two seconds on; when fewer than two seconds are
    /// left, marks the player finished instead.
    pub fn forward_2s(&mut self)
        requires
            old(self).rate() * 2 <= u32::MAX,
        ensures
            *final(self) == old(self).after_forward_2s(),
            old(self).well_formed() ==> final(self).well_formed(),
            final(self).sample_seq() == old(self).sample_seq(),
            final(self).rate() == old(self).rate(),
            final(self).channel_count() == old(self).channel_count(),
            old(self).pos() + old(self).two_seconds() > old(self).sample_seq().len() ==> {
                &&& final(self).done()
                &&& final(self).pos() == old(self).pos()
            },
            old(self).pos() + old(self).two_seconds() <= old(self).sample_seq().len() ==> {
                &&& final(self).done() == old(self).done()
                &&& final(self).pos() == old(self).pos() + old(self).two_seconds()
            },
    {
        let forward = (self.sample_rate * 2) as usize;
        let len = self.samples.len();
        if self.whar_am_i > len || forward > len - self.whar_am_i {
            self.finished = true;
        } else {
            self.whar_am_i += forward;
        }
    }

    /// Moves the cursor two seconds back, or to the start when less than two
    /// seconds have been played.
    pub fn back_2s(&mut self)
        requires
            old(self).rate() * 2 <= u32::MAX,
        ensures
            *final(self) == old(self).after_back_2s(),
            old(self).well_formed() ==> final(self).well_formed(),
            final(self).sample_seq() == old(self).sample_seq(),
            final(self).rate() == old(self).rate(),
            final(self).channel_count() == old(self).channel_count(),
            final(self).done() == old(self).done(),
            old(self).pos() >= old(self).two_seconds() ==> final(self).pos() == old(self).pos()
                - old(self).two_seconds(),
            old(self).pos() < old(self).two_seconds() ==> final(self).pos() == 0,
    {
        let backward = (self.sample_rate * 2) as usize;
        if let Some(d) = self.whar_am_i.checked_sub(backward) {
            self.whar_am_i = d;
        } else {
            self.whar_am_i = 0;
        }
    }

    /// Moves the cursor to the start and clears `finished`.
    pub fn restart(&mut self)
        ensures
            *final(self) == old(self).after_restart(),
            final(self).well_formed(),
            final(self).sample_seq() == old(self).sample_seq(),
            final(self).rate() == old(self).rate(),
            final(self).channel_count() == old(self).channel_count(),
            !final(self).done(),
            final(self).pos() == 0,
    {
        self.whar_am_i = 0;
        self.finished = false;
    }

    /// Fills the device's buffer `out`: with the next samples while they
    /// last, then with `silence`. A buffer that reaches past the last sample
    /// marks the player finished; a finished player only gives silence.
    pub fn callback(&mut self, out: &mut [S], silence: S)
        requires
            !old(self).done() ==> old(self).well_formed() && old(self).pos() + old(out)@.len()
                <= usize::MAX,
        ensures
            final(out)@ == old(self).buffer_for(old(out)@.len(), silence),
            *final(self) == old(self).after_buffer(old(out)@.len()),
            old(self).well_formed() ==> final(self).well_formed(),
            final(self).sample_seq() == old(self).sample_seq(),
            final(self).rate() == old(self).rate(),
            final(self).channel_count() == old(self).channel_count(),
            old(self).done() ==> final(self).done() && final(self).pos() == old(self).pos(),
            !old(self).done() && old(self).pos() + old(out)@.len() > old(self).sample_seq().len()
                ==> final(self).done() && final(self).pos() == old(self).pos(),
            !old(self).done() && old(self).pos() + old(out)@.len() <= old(self).sample_seq().len()
                ==> !final(self).done() && final(self).pos() == old(self).pos() + old(out)@.len(),
    {
        let samples_len = self.samples.len();
        let l = out.len();
        if self.finished {
            let mut i: usize = 0;
            while i < l
                invariant
                    l == out@.len(),
                    i <= l,
                    forall|k: int| 0 <= k < i ==> out@[k] == silence,
                decreases l - i,
            {
                out[i] = silence;
                i += 1;
            }
            assert(out@ =~= silence_run(l as nat, silence));
        } else {
            let start = self.whar_am_i;
            if start + l > samples_len {
                let can_copy = samples_len - start;
                let mut i: usize = 0;
                while i < l
                    invariant
                        l == out@.len(),
                        i <= l,
                        start + can_copy == samples_len,
                        samples_len == self.samples@.len(),
                        can_copy < l,
                        forall|k: int|
                            0 <= k < i ==> out@[k] == (if k < can_copy {
                                self.samples@[start + k]
                            } else {
                                silence
                            }),
                    decreases l - i,
                {
                    if i < can_copy {
                        out[i] = self.samples[start + i];
                    } else {
                        out[i] = silence;
                    }
                    i += 1;
                }
                self.finished = true;
                assert(out@ =~= self.samples@.subrange(start as int, samples_len as int)
                    + silence_run((start + l - samples_len) as nat, silence));
            } else {
                let mut i: usize = 0;
                while i < l
                    invariant
                        l == out@.len(),
                        i <= l,
                        start + l <= samples_len,
                        samples_len == self.samples@.len(),
                        forall|k: int| 0 <= k < i ==> out@[k] == self.samples@[start + k],
                    decreases l - i,
                {
                    out[i] = self.samples[start + i];
                    i += 1;
                }
                self.whar_am_i = start + l;
                assert(out@ =~= self.samples@.subrange(start as int, (start + l) as int));
            }
        }
    }
}

/// The samples held fit in a `usize` count, as any vector's do, and so does
/// the cursor.
pub broadcast proof fn lemma_sizes<S: Copy>(p: AudioPlayer<S>)
    ensures
        #[trigger] p.sample_seq().len() <= usize::MAX,
        p.pos() <= usize::MAX,
{
    assert(p.samples.len() == p.samples@.len());
}

/// Moving the cursor changes nothing else. (`broadcast use
/// group_player_updates` brings this, the next fact and `lemma_sizes` into a
/// proof.)
pub broadcast proof fn lemma_with_pos<S: Copy>(p: AudioPlayer<S>, n: nat)
    requires
        n <= usize::MAX,
    ensures
        #[trigger] p.with_pos(n).pos() == n,
        p.with_pos(n).done() == p.done(),
        p.with_pos(n).sample_seq() == p.sample_seq(),
        p.with_pos(n).rate() == p.rate(),
        p.with_pos(n).channel_count() == p.channel_count(),
{
}

/// Setting the `finished` flag changes nothing else.
pub broadcast proof fn lemma_with_done<S: Copy>(p: AudioPlayer<S>, d: bool)
    ensures
        #[trigger] p.with_done(d).done() == d,
        p.with_done(d).pos() == p.pos(),
        p.with_done(d).sample_seq() == p.sample_seq(),
        p.with_done(d).rate() == p.rate(),
        p.with_done(d).channel_count() == p.channel_count(),
{
}

/// The sizes of a player, and what moving the cursor and setting the flag do
/// to each part of it.
pub broadcast group group_player_updates {
    lemma_sizes,
    lemma_with_pos,
    lemma_with_done,
}

/// Each of `callback`, `forward_2s`, `back_2s` and `restart` keeps the
/// samples, the sample rate and the channel count, and keeps the cursor
/// within the samples.
pub proof fn law_operations_keep_fields<S: Copy>(p: AudioPlayer<S>, len: nat)
    requires
        p.well_formed(),
    ensures
        ({
            let b = p.after_buffer(len);
            b.well_formed() && b.sample_seq() == p.sample_seq() && b.rate() == p.rate()
                && b.channel_count() == p.channel_count()
        }),
        ({
            let f = p.after_forward_2s();
            f.well_formed() && f.sample_seq() == p.sample_seq() && f.rate() == p.rate()
                && f.channel_count() == p.channel_count()
        }),
        ({
            let k = p.after_back_2s();
            k.well_formed() && k.sample_seq() == p.sample_seq() && k.rate() == p.rate()
                && k.channel_count() == p.channel_count()
        }),
        ({
            let r = p.after_restart();
            r.well_formed() && r.sample_seq() == p.sample_seq() && r.rate() == p.rate()
                && r.channel_count() == p.channel_count()
        }),
{
    assert(p.samples.len() == p.samples@.len());
}

/// Two buffers handed to the device one after the other carry exactly what
/// one buffer of their joint length would: playback has no gap, no overlap
/// and no reordering, and the silence after the end starts at the end.
pub proof fn law_consecutive_buffers<S: Copy>(p: AudioPlayer<S>, a: nat, b: nat, silence: S)
    requires
        p.well_formed(),
    ensures
        p.buffer_for(a, silence) + p.after_buffer(a).buffer_for(b, silence) == p.buffer_for(
            a + b,
            silence,
        ),
        p.pos() + a + b <= p.sample_seq().len() ==> p.after_buffer(a).after_buffer(b)
            == p.after_buffer(a + b),
{
    let q = p.after_buffer(a);
    let len = p.samples@.len();
    assert(p.samples.len() == len);
    let pos = p.pos();
    if p.finished {
        assert(silence_run(a, silence) + silence_run(b, silence) =~= silence_run(a + b, silence));
    } else if pos + a > len {
        assert(p.samples@.subrange(pos as int, len as int) + silence_run(
            (pos + a - len) as nat,
            silence,
        ) + silence_run(b, silence) =~= p.samples@.subrange(pos as int, len as int)
            + silence_run((pos + a + b - len) as nat, silence));
    } else if pos + a + b > len {
        assert(q.pos() == pos + a);
        assert(p.samples@.subrange(pos as int, (pos + a) as int) + (p.samples@.subrange(
            (pos + a) as int,
            len as int,
        ) + silence_run((pos + a + b - len) as nat, silence)) =~= p.samples@.subrange(
            pos as int,
            len as int,
        ) + silence_run((pos + a + b - len) as nat, silence));
    } else {
        assert(q.pos() == pos + a);
        assert(p.samples@.subrange(pos as int, (pos + a) as int) + p.samples@.subrange(
            (pos + a) as int,
            (pos + a + b) as int,
        ) =~= p.samples@.subrange(pos as int, (pos + a + b) as int));
    }
}

/// Once finished, a player gives only silence and stays as it is, whatever
/// the size of the buffer.
pub proof fn law_finished_gives_silence<S: Copy>(p: AudioPlayer<S>, n: nat, silence: S)
    requires
        p.done(),
    ensures
        p.buffer_for(n, silence) == silence_run(n, silence),
        p.after_buffer(n) == p,
{
}

/// Skipping two seconds back after skipping two seconds forward returns to
/// the same place, as long as the skip forward did not run past the end.
pub proof fn law_back_undoes_forward<S: Copy>(p: AudioPlayer<S>)
    requires
        p.pos() + p.two_seconds() <= p.sample_seq().len(),
    ensures
        p.after_forward_2s().after_back_2s() == p,
{
    assert(p.samples.len() == p.samples@.len());
}

/// A restart leaves the player at the start of its samples, not finished,
/// whatever happened before; restarting twice is restarting once.
pub proof fn law_restart<S: Copy>(p: AudioPlayer<S>)
    ensures
        p.after_restart().pos() == 0,
        !p.after_restart().done(),
        p.after_restart().well_formed(),
        p.after_restart().sample_seq() == p.sample_seq(),
        p.after_restart().after_restart() == p.after_restart(),
{
}

/// A buffer of `len` samples holds, at its place `i`, the sample `i` places
/// after the cursor while there is one, and silence after the last sample;
/// a finished player fills it with silence only.
pub proof fn law_buffer_contents<S: Copy>(p: AudioPlayer<S>, len: nat, silence: S, i: int)
    requires
        p.well_formed(),
        0 <= i < len,
    ensures
        p.buffer_for(len, silence).len() == len,
        p.buffer_for(len, silence)[i] == (if !p.done() && p.pos() + i < p.sample_seq().len() {
            p.sample_seq()[p.pos() + i]
        } else {
            silence
        }),
{
}

} // verus!
