use vstd::prelude::*;

use crate::audio::audio_player::AudioPlayer;

verus! {

/// How decoding a packet failed: a damaged packet, which decoding skips, or
/// any other error, which ends decoding.
#[derive(Clone, Copy, Debug, PartialEq, Eq, Structural)]
pub enum DecodeFailure {
    Recoverable,
    Fatal,
}

/// Gathers the samples of one track while its file is decoded packet by
/// packet.
pub struct SampleCollector<S> {
    /// The track whose packets are decoded.
    pub track_id: u32,
    /// The samples decoded so far, all channels interleaved.
    pub samples: Vec<S>,
    /// A fatal error ended decoding.
    pub stopped: bool,
}

/// The samples that a run of decoding results adds: each decoded buffer in
/// turn, skipping damaged packets, up to the first fatal error.
pub open spec fn collected<S>(results: Seq<Result<Seq<S>, DecodeFailure>>) -> Seq<S>
    decreases results.len(),
{
    if results.len() == 0 {
        seq![]
    } else {
        match results[0] {
            Ok(v) => v + collected(results.drop_first()),
            Err(DecodeFailure::Recoverable) => collected(results.drop_first()),
            Err(DecodeFailure::Fatal) => seq![],
        }
    }
}

/// A run of decoding results holds no fatal error.
pub open spec fn no_fatal<S>(results: Seq<Result<Seq<S>, DecodeFailure>>) -> bool {
    forall|i: int|
        0 <= i < results.len() ==> results[i] != Err::<Seq<S>, DecodeFailure>(
            DecodeFailure::Fatal,
        )
}

/// A decoding result as plain values.
pub open spec fn result_view<S>(r: Result<Vec<S>, DecodeFailure>) -> Result<Seq<S>, DecodeFailure> {
    match r {
        Ok(v) => Ok(v@),
        Err(e) => Err(e),
    }
}

/// What one decoding result gathers.
proof fn lemma_collected_one<S>(r: Result<Seq<S>, DecodeFailure>)
    ensures
        collected(seq![r]) == (match r {
            Ok(v) => v,
            Err(_) => Seq::<S>::empty(),
        }),
{
    reveal_with_fuel(collected, 2);
    assert(seq![r].drop_first() =~= Seq::<Result<Seq<S>, DecodeFailure>>::empty());
    if let Ok(v) = r {
        assert(v + Seq::<S>::empty() =~= v);
    }
}

impl<S: Copy> SampleCollector<S> {
    /// Starts gathering the samples of track `track_id`.
    pub fn new(track_id: u32) -> (r: Self)
        ensures
            r.track_id == track_id,
            r.samples@ == Seq::<S>::empty(),
            !r.stopped,
    {
        SampleCollector { track_id, samples: Vec::new(), stopped: false }
    }

    /// Whether the packet of track `packet_track_id` is to be decoded:
    /// decoding goes on and the packet belongs to the chosen track.
    pub fn wants(&self, packet_track_id: u32) -> (r: bool)
        ensures
            r == (!self.stopped && packet_track_id == self.track_id),
    {
        !self.stopped && packet_track_id == self.track_id
    }

    /// Takes in the result of decoding one packet: its samples are added
    /// after those before; a damaged packet is skipped; any other error
    /// ends decoding.
    pub fn take(&mut self, decoded: Result<Vec<S>, DecodeFailure>)
        requires
            !old(self).stopped,
        ensures
            final(self).track_id == old(self).track_id,
            final(self).samples@ == old(self).samples@ + collected(seq![result_view(decoded)]),
            final(self).stopped == (decoded == Err::<Vec<S>, DecodeFailure>(
                DecodeFailure::Fatal,
            )),
    {
        match decoded {
            Ok(mut buffer) => {
                proof {
                    lemma_collected_one(result_view(Ok::<Vec<S>, DecodeFailure>(buffer)));
                }
                self.samples.append(&mut buffer);
            },
            Err(DecodeFailure::Recoverable) => {
                proof {
                    lemma_collected_one(Err::<Seq<S>, DecodeFailure>(DecodeFailure::Recoverable));
                }
                assert(self.samples@ + Seq::<S>::empty() =~= self.samples@);
            },
            Err(DecodeFailure::Fatal) => {
                proof {
                    lemma_collected_one(Err::<Seq<S>, DecodeFailure>(DecodeFailure::Fatal));
                }
                assert(self.samples@ + Seq::<S>::empty() =~= self.samples@);
                self.stopped = true;
            },
        }
    }

    /// The player for the samples gathered, at the track's sample rate and
    /// channel count.
    pub fn into_player(self, sample_rate: u32, channels: usize) -> (r: AudioPlayer<S>)
        ensures
            r.sample_seq() == self.samples@,
            r.rate() == sample_rate,
            r.channel_count() == channels,
            !r.done(),
            r.pos() == 0,
    {
        AudioPlayer::new(self.samples, sample_rate, channels)
    }
}

/// Taking in decoding results one at a time gathers what the whole run
/// gathers: until a fatal error, each result adds its share after the
/// samples before it.
pub proof fn law_collecting_in_steps<S>(
    results: Seq<Result<Seq<S>, DecodeFailure>>,
    next: Result<Seq<S>, DecodeFailure>,
)
    requires
        no_fatal(results),
    ensures
        collected(results.push(next)) == collected(results) + collected(seq![next]),
    decreases results.len(),
{
    if results.len() == 0 {
        assert(results.push(next) =~= seq![next]);
        assert(Seq::<S>::empty() + collected(seq![next]) =~= collected(seq![next]));
    } else {
        let rest = results.drop_first();
        assert(results.push(next).drop_first() =~= rest.push(next));
        assert(no_fatal(rest)) by {
            assert forall|i: int| 0 <= i < rest.len() implies rest[i] != Err::<
                Seq<S>,
                DecodeFailure,
            >(DecodeFailure::Fatal) by {
                assert(rest[i] == results[i + 1]);
            }
        }
        law_collecting_in_steps(rest, next);
        assert(results[0] != Err::<Seq<S>, DecodeFailure>(DecodeFailure::Fatal));
        match results[0] {
            Ok(v) => {
                assert(v + (collected(rest) + collected(seq![next])) =~= (v + collected(rest))
                    + collected(seq![next]));
            },
            _ => {},
        }
    }
}

/// One decoding result gathers its samples when it has some, and nothing
/// when its packet was damaged or decoding failed; after a fatal error
/// nothing more is gathered.
pub proof fn law_one_result<S>(
    v: Seq<S>,
    e: DecodeFailure,
    rest: Seq<Result<Seq<S>, DecodeFailure>>,
)
    ensures
        collected(seq![Ok::<Seq<S>, DecodeFailure>(v)]) == v,
        collected(seq![Err::<Seq<S>, DecodeFailure>(e)]) == Seq::<S>::empty(),
        collected(seq![Err::<Seq<S>, DecodeFailure>(DecodeFailure::Fatal)] + rest)
            == Seq::<S>::empty(),
{
    lemma_collected_one(Ok::<Seq<S>, DecodeFailure>(v));
    lemma_collected_one(Err::<Seq<S>, DecodeFailure>(e));
    let all = seq![Err::<Seq<S>, DecodeFailure>(DecodeFailure::Fatal)] + rest;
    assert(all[0] == Err::<Seq<S>, DecodeFailure>(DecodeFailure::Fatal));
}

} // verus!
