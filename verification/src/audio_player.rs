use vstd::prelude::*;

use crate::audio::audio_player::silence_run;

verus! {

/// The first form of the player, with a `play` switch: while `play` is off
/// the device's buffers are left untouched; past the end the cursor keeps
/// moving and every buffer is silence.
///
/// * `samples`: the raw samples, all channels interleaved;
/// * `sample_rate`: samples per second and channel (usually 44100);
/// * `channels`: the number of channels;
/// * `play`: whether the audio is playing;
/// * `finished`: kept for the caller, the player never sets it.
pub struct AudioPlayer<S> {
    pub samples: Vec<S>,
    pub sample_rate: u32,
    pub channels: usize,
    pub play: bool,
    pub finished: bool,
    whar_am_i: usize,
}

impl<S: Copy> AudioPlayer<S> {
    /// The index of the next sample to play.
    pub closed spec fn pos(&self) -> nat {
        self.whar_am_i as nat
    }

    /// The samples held.
    pub closed spec fn sample_seq(&self) -> Seq<S> {
        self.samples@
    }

    /// The sample rate.
    pub closed spec fn rate(&self) -> u32 {
        self.sample_rate
    }

    /// The number of channels.
    pub closed spec fn channel_count(&self) -> usize {
        self.channels
    }

    /// Whether the player is switched on.
    pub closed spec fn playing(&self) -> bool {
        self.play
    }

    /// The `finished` flag.
    pub closed spec fn done(&self) -> bool {
        self.finished
    }

    /// The player with its cursor at `p`, all else the same.
    pub closed spec fn with_pos(self, p: nat) -> Self {
        AudioPlayer { whar_am_i: p as usize, ..self }
    }

    /// What a buffer `out` holds after the player filled it.
    pub open spec fn buffer_for(&self, out: Seq<S>, silence: S) -> Seq<S> {
        let len = out.len();
        let n = self.sample_seq().len();
        if !self.playing() {
            out
        } else if self.pos() > n {
            silence_run(len, silence)
        } else if self.pos() + len > n {
            self.sample_seq().subrange(self.pos() as int, n as int) + silence_run(
                (self.pos() + len - n) as nat,
                silence,
            )
        } else {
            self.sample_seq().subrange(self.pos() as int, (self.pos() + len) as int)
        }
    }

    /// The player after filling a buffer of `len` samples: the cursor moves
    /// on by `len` unless it already stood past the end.
    pub open spec fn after_buffer(self, len: nat) -> Self {
        if !self.playing() || self.pos() > self.sample_seq().len() {
            self
        } else {
            self.with_pos(self.pos() + len)
        }
    }

    /// Creates a player at the start of `samples`, switched on, not finished.
    pub fn new(samples: Vec<S>, sample_rate: u32, channels: usize) -> (r: Self)
        ensures
            r.sample_seq() == samples@,
            r.rate() == sample_rate,
            r.channel_count() == channels,
            r.playing(),
            !r.done(),
            r.pos() == 0,
    {
        AudioPlayer { samples, sample_rate, channels, play: true, finished: false, whar_am_i: 0 }
    }

    /// The index of the next sample to play.
    pub fn position(&self) -> (r: usize)
        ensures
            r == self.pos(),
    {
        self.whar_am_i
    }

    /// Fills the device's buffer `out` with the next samples, then with
    /// `silence`; does nothing while the player is switched off.
    pub fn callback(&mut self, out: &mut [S], silence: S)
        requires
            old(self).playing() && old(self).pos() <= old(self).sample_seq().len() ==> old(
                self,
            ).pos() + old(out)@.len() <= usize::MAX,
        ensures
            final(out)@ == old(self).buffer_for(old(out)@, silence),
            *final(self) == old(self).after_buffer(old(out)@.len()),
            final(self).sample_seq() == old(self).sample_seq(),
            final(self).rate() == old(self).rate(),
            final(self).channel_count() == old(self).channel_count(),
            final(self).playing() == old(self).playing(),
            final(self).done() == old(self).done(),
            old(self).playing() && old(self).pos() <= old(self).sample_seq().len()
                ==> final(self).pos() == old(self).pos() + old(out)@.len(),
            !(old(self).playing() && old(self).pos() <= old(self).sample_seq().len())
                ==> final(self).pos() == old(self).pos(),
    {
        if !self.play {
            return;
        }
        let d = self.samples.len();
        let l = out.len();
        let start = self.whar_am_i;
        if start > d {
            let mut i: usize = 0;
            while i < l
                invariant
                    l == out@.len(),
                    i <= l,
                    forall|k: int| 0 <= k < i ==> out@[k] == silence,
                decreases l - i,
            {
                out[i] = silence;
                i += 1;
            }
            assert(out@ =~= silence_run(l as nat, silence));
        } else {
            let next = start + l;
            let can_copy = if next > d {
                d - start
            } else {
                l
            };
            let mut i: usize = 0;
            while i < l
                invariant
                    l == out@.len(),
                    i <= l,
                    start + can_copy <= d,
                    can_copy <= l,
                    d == self.samples@.len(),
                    next == start + l,
                    next > d ==> start + can_copy == d,
                    next <= d ==> can_copy == l,
                    forall|k: int|
                        0 <= k < i ==> out@[k] == (if k < can_copy {
                            self.samples@[start + k]
                        } else {
                            silence
                        }),
                decreases l - i,
            {
                if i < can_copy {
                    out[i] = self.samples[start + i];
                } else {
                    out[i] = silence;
                }
                i += 1;
            }
            self.whar_am_i = next;
            if next > d {
                assert(out@ =~= self.samples@.subrange(start as int, d as int) + silence_run(
                    (start + l - d) as nat,
                    silence,
                ));
            } else {
                assert(out@ =~= self.samples@.subrange(start as int, next as int));
            }
        }
    }
}

/// The samples held fit in a `usize` count, as any vector's do, and so does
/// the cursor.
pub broadcast proof fn lemma_sizes<S: Copy>(p: AudioPlayer<S>)
    ensures
        #[trigger] p.sample_seq().len() <= usize::MAX,
        p.pos() <= usize::MAX,
{
    assert(p.samples.len() == p.samples@.len());
}

/// Moving the cursor changes nothing else.
pub broadcast proof fn lemma_with_pos<S: Copy>(p: AudioPlayer<S>, n: nat)
    requires
        n <= usize::MAX,
    ensures
        #[trigger] p.with_pos(n).pos() == n,
        p.with_pos(n).playing() == p.playing(),
        p.with_pos(n).done() == p.done(),
        p.with_pos(n).sample_seq() == p.sample_seq(),
        p.with_pos(n).rate() == p.rate(),
        p.with_pos(n).channel_count() == p.channel_count(),
{
}

/// While switched on, two buffers filled one after the other carry exactly
/// what one buffer of their joint length would; when the first buffer ends
/// within the samples, they also leave the cursor where that one buffer would.
pub proof fn law_consecutive_buffers<S: Copy>(
    p: AudioPlayer<S>,
    first: Seq<S>,
    second: Seq<S>,
    silence: S,
)
    requires
        p.playing(),
        p.pos() + first.len() + second.len() <= usize::MAX,
    ensures
        p.buffer_for(first, silence) + p.after_buffer(first.len()).buffer_for(second, silence)
            == p.buffer_for(first + second, silence),
        p.pos() + first.len() <= p.sample_seq().len() ==> p.after_buffer(first.len()).after_buffer(
            second.len(),
        ) == p.after_buffer(
            first.len() + second.len(),
        ),
{
    let a = first.len();
    let b = second.len();
    let n = p.samples@.len();
    let pos = p.pos();
    let q = p.after_buffer(a);
    if pos > n {
        assert(silence_run(a, silence) + silence_run(b, silence) =~= silence_run(a + b, silence));
    } else {
        assert(q.pos() == pos + a);
        if pos + a > n {
            assert(p.samples@.subrange(pos as int, n as int) + silence_run(
                (pos + a - n) as nat,
                silence,
            ) + silence_run(b, silence) =~= p.samples@.subrange(pos as int, n as int)
                + silence_run((pos + a + b - n) as nat, silence));
        } else if pos + a + b > n {
            assert(p.samples@.subrange(pos as int, (pos + a) as int) + (p.samples@.subrange(
                (pos + a) as int,
                n as int,
            ) + silence_run((pos + a + b - n) as nat, silence)) =~= p.samples@.subrange(
                pos as int,
                n as int,
            ) + silence_run((pos + a + b - n) as nat, silence));
        } else {
            assert(p.samples@.subrange(pos as int, (pos + a) as int) + p.samples@.subrange(
                (pos + a) as int,
                (pos + a + b) as int,
            ) =~= p.samples@.subrange(pos as int, (pos + a + b) as int));
        }
    }
}

/// While switched on, a buffer holds, at its place `i`, the sample `i`
/// places after the cursor while there is one, and silence after the last
/// sample; while switched off it keeps what it held.
pub proof fn law_buffer_contents<S: Copy>(p: AudioPlayer<S>, out: Seq<S>, silence: S, i: int)
    requires
        0 <= i < out.len(),
    ensures
        p.buffer_for(out, silence).len() == out.len(),
        p.buffer_for(out, silence)[i] == (if !p.playing() {
            out[i]
        } else if p.pos() + i < p.sample_seq().len() {
            p.sample_seq()[p.pos() + i]
        } else {
            silence
        }),
{
}

} // verus!
