//! Composition engine: generates the musical content of a tune.

pub mod harmony;
pub mod melody;
pub mod rhythm;

use rand::rngs::StdRng;
use vstd::prelude::*;

use crate::error::Error;
use crate::random::{fresh_seed, rng_stream, seeded_stream};
use crate::types::{
    events_data_valid, paired_notes, spec_instrument_name, total_beats, track_views, GeneratedTune, Instrument, MidiTrack, ProgramView,
    TrackView, TuneProgram,
};
use crate::utils::{create_rng, MAX_BEATS};

use harmony::{bass_fits, generate_bass_track, lemma_bass_bars_paired, lemma_bass_events_valid, spec_bass_bars, spec_bass_events};
use melody::{generate_melodic_track, lemma_melody_events_valid, lemma_melody_paired, spec_melody_events, spec_melody_notes};
use rhythm::{generate_drum_track, lemma_drum_beats_paired, spec_drum_beats};

verus! {

/// The MIDI channel of the instrument at position `idx`. Drums play on
/// channel 10 (index 9), which General MIDI keeps for percussion; every
/// other instrument takes one of the fifteen other channels by its
/// position: indices 0 to 8, then 10 to 15, then from 0 again.
pub open spec fn spec_channel(instrument: Instrument, idx: nat) -> u8 {
    if instrument == Instrument::Drums {
        9
    } else {
        let j = idx % 15;
        if j < 9 {
            j as u8
        } else {
            (j + 1) as u8
        }
    }
}

/// The track generated for one instrument from `stream`, and the stream
/// left afterwards.
pub open spec fn spec_track(
    p: ProgramView,
    instrument: Instrument,
    idx: nat,
    stream: Map<int, u32>,
) -> (TrackView, Map<int, u32>) {
    let channel = spec_channel(instrument, idx);
    let beats = total_beats(p);
    let bpb = p.time_signature.0 as nat;
    match instrument {
        Instrument::Drums => {
            let (events, rest) = spec_drum_beats(stream, 0, beats, bpb);
            (TrackView { name: "Drums"@, instrument, channel, events }, rest)
        },
        Instrument::Bass => (
            TrackView {
                name: "Bass"@,
                instrument,
                channel,
                events: spec_bass_events(p.key, bpb, p.duration_bars as nat),
            },
            stream,
        ),
        _ => (
            TrackView {
                name: spec_instrument_name(instrument),
                instrument,
                channel,
                events: spec_melody_events(stream, instrument, p.key, beats, p.base_velocity),
            },
            spec_melody_notes(
                stream,
                0,
                beats * 4,
                melody::spec_parse_key(p.key),
                p.base_velocity,
            ).1,
        ),
    }
}

/// The tracks of the instruments from position `idx` on, generated in order
/// from `stream`.
pub open spec fn spec_tracks_from(p: ProgramView, idx: nat, stream: Map<int, u32>) -> Seq<
    TrackView,
>
    decreases p.instruments.len() - idx,
{
    if idx >= p.instruments.len() {
        seq![]
    } else {
        let (track, rest) = spec_track(p, p.instruments[idx as int], idx, stream);
        seq![track] + spec_tracks_from(p, idx + 1, rest)
    }
}

/// The tracks that a program gives with a seed: one per instrument, in the
/// program's order, all drawn from one generator seeded with it.
pub open spec fn spec_tune_tracks(p: ProgramView, seed: u64) -> Seq<TrackView> {
    spec_tracks_from(p, 0, seeded_stream(seed))
}

proof fn lemma_tracks_from_same(p: ProgramView, q: ProgramView, idx: nat, stream: Map<int, u32>)
    requires
        p.key == q.key,
        p.time_signature == q.time_signature,
        p.duration_bars == q.duration_bars,
        p.base_velocity == q.base_velocity,
        p.instruments == q.instruments,
    ensures
        spec_tracks_from(p, idx, stream) == spec_tracks_from(q, idx, stream),
    decreases p.instruments.len() - idx,
{
    if idx < p.instruments.len() {
        let (track, rest) = spec_track(p, p.instruments[idx as int], idx, stream);
        assert(spec_track(p, p.instruments[idx as int], idx, stream) == spec_track(
            q,
            q.instruments[idx as int],
            idx,
            stream,
        ));
        lemma_tracks_from_same(p, q, idx + 1, rest);
    }
}

/// Replaying a tune: the tracks depend on a program only through its key,
/// time signature, length, velocity floor and instruments, and on the seed.
/// So a program that carries a tune's seed, and otherwise agrees with the
/// program that made the tune on those fields, gives the same tracks again.
pub proof fn lemma_replay(p: ProgramView, q: ProgramView, seed: u64)
    requires
        p.key == q.key,
        p.time_signature == q.time_signature,
        p.duration_bars == q.duration_bars,
        p.base_velocity == q.base_velocity,
        p.instruments == q.instruments,
    ensures
        spec_tune_tracks(p, seed) == spec_tune_tracks(q, seed),
{
    lemma_tracks_from_same(p, q, 0, seeded_stream(seed));
}

/// Same seed, same tune: the tracks that `generate` returns are fixed by
/// the program and the seed, whatever engine makes them. Two tunes made
/// from one program with one seed have the same tracks, each with the same
/// name, instrument, channel and events, event for event.
pub proof fn lemma_same_seed_same_tracks(
    p: ProgramView,
    seed: u64,
    first: Seq<TrackView>,
    second: Seq<TrackView>,
)
    requires
        first == spec_tune_tracks(p, seed),
        second == spec_tune_tracks(p, seed),
    ensures
        first.len() == second.len(),
        forall|i: int|
            0 <= i < first.len() ==> {
                &&& (#[trigger] first[i]).name == second[i].name
                &&& first[i].instrument == second[i].instrument
                &&& first[i].channel == second[i].channel
                &&& first[i].events == second[i].events
            },
{
}

/// A generated track's shape: a drum track is note pairs; every other
/// track is a program change followed by note pairs.
pub open spec fn track_well_formed(t: TrackView) -> bool {
    if t.instrument == Instrument::Drums {
        paired_notes(t.events)
    } else {
        &&& t.events.len() >= 1
        &&& t.events[0].event_type is ProgramChange
        &&& paired_notes(t.events.drop_first())
    }
}

proof fn lemma_track_well_formed(p: ProgramView, instrument: Instrument, idx: nat, stream: Map<int, u32>)
    requires
        total_beats(p) <= MAX_BEATS,
    ensures
        track_well_formed(spec_track(p, instrument, idx, stream).0),
{
    let beats = total_beats(p);
    let bpb = p.time_signature.0 as nat;
    let t = spec_track(p, instrument, idx, stream).0;
    match instrument {
        Instrument::Drums => {
            lemma_drum_beats_paired(stream, 0, beats, bpb);
        },
        Instrument::Bass => {
            if p.duration_bars > 0 {
                assert((p.duration_bars - 1) * bpb <= p.duration_bars * bpb) by (nonlinear_arith);
            }
            lemma_bass_bars_paired(harmony::spec_parse_key(p.key), bpb, 0, p.duration_bars as nat);
            assert(t.events.drop_first() =~= spec_bass_bars(
                harmony::spec_parse_key(p.key),
                bpb,
                0,
                p.duration_bars as nat,
            ));
        },
        _ => {
            lemma_melody_paired(stream, 0, beats * 4, melody::spec_parse_key(p.key), p.base_velocity);
            assert(t.events.drop_first() =~= spec_melody_notes(
                stream,
                0,
                beats * 4,
                melody::spec_parse_key(p.key),
                p.base_velocity,
            ).0);
        },
    }
}

proof fn lemma_tracks_from_well_formed(p: ProgramView, idx: nat, stream: Map<int, u32>)
    requires
        total_beats(p) <= MAX_BEATS,
    ensures
        forall|i: int|
            0 <= i < spec_tracks_from(p, idx, stream).len() ==> track_well_formed(
                #[trigger] spec_tracks_from(p, idx, stream)[i],
            ),
    decreases p.instruments.len() - idx,
{
    if idx < p.instruments.len() {
        let (track, rest) = spec_track(p, p.instruments[idx as int], idx, stream);
        lemma_track_well_formed(p, p.instruments[idx as int], idx, stream);
        lemma_tracks_from_well_formed(p, idx + 1, rest);
        let all = spec_tracks_from(p, idx, stream);
        assert(all =~= seq![track] + spec_tracks_from(p, idx + 1, rest));
        assert forall|i: int| 0 <= i < all.len() implies track_well_formed(#[trigger] all[i]) by {
            if i > 0 {
                assert(all[i] == spec_tracks_from(p, idx + 1, rest)[i - 1]);
            }
        }
    }
}

/// Every generated track comes as note pairs, each note on followed by the
/// note off of the same note at a later time; every track but the drums
/// starts with a program change.
pub proof fn lemma_tracks_well_formed(p: ProgramView, seed: u64)
    requires
        total_beats(p) <= MAX_BEATS,
    ensures
        forall|i: int|
            0 <= i < spec_tune_tracks(p, seed).len() ==> track_well_formed(
                #[trigger] spec_tune_tracks(p, seed)[i],
            ),
{
    lemma_tracks_from_well_formed(p, 0, seeded_stream(seed));
}

proof fn lemma_tracks_from_instruments(p: ProgramView, idx: nat, stream: Map<int, u32>)
    requires
        idx <= p.instruments.len(),
    ensures
        spec_tracks_from(p, idx, stream).len() == p.instruments.len() - idx,
        forall|i: int|
            0 <= i < spec_tracks_from(p, idx, stream).len() ==> {
                &&& (#[trigger] spec_tracks_from(p, idx, stream)[i]).instrument
                    == p.instruments[idx + i]
                &&& spec_tracks_from(p, idx, stream)[i].channel == spec_channel(
                    p.instruments[idx + i],
                    (idx + i) as nat,
                )
            },
    decreases p.instruments.len() - idx,
{
    if idx < p.instruments.len() {
        let (track, rest) = spec_track(p, p.instruments[idx as int], idx, stream);
        lemma_tracks_from_instruments(p, idx + 1, rest);
        let all = spec_tracks_from(p, idx, stream);
        assert(all =~= seq![track] + spec_tracks_from(p, idx + 1, rest));
        assert forall|i: int| 0 <= i < all.len() implies {
            &&& (#[trigger] all[i]).instrument == p.instruments[idx + i]
            &&& all[i].channel == spec_channel(p.instruments[idx + i], (idx + i) as nat)
        } by {
            if i > 0 {
                assert(all[i] == spec_tracks_from(p, idx + 1, rest)[i - 1]);
            }
        }
    }
}

/// One track per instrument, in the program's order: the track at position
/// `i` plays instrument `i`, on the channel that `spec_channel` gives it:
/// channel index 9 for drums, and for every other instrument a channel
/// below 16 other than 9.
pub proof fn lemma_tracks_match_instruments(p: ProgramView, seed: u64)
    ensures
        spec_tune_tracks(p, seed).len() == p.instruments.len(),
        forall|i: int|
            0 <= i < p.instruments.len() ==> {
                &&& (#[trigger] spec_tune_tracks(p, seed)[i]).instrument == p.instruments[i]
                &&& spec_tune_tracks(p, seed)[i].channel == spec_channel(p.instruments[i], i as nat)
                &&& spec_tune_tracks(p, seed)[i].channel < 16
                &&& (spec_tune_tracks(p, seed)[i].channel == 9 <==> p.instruments[i]
                    == Instrument::Drums)
            },
{
    lemma_tracks_from_instruments(p, 0, seeded_stream(seed));
    assert forall|i: int| 0 <= i < p.instruments.len() implies {
        &&& (#[trigger] spec_tune_tracks(p, seed)[i]).instrument == p.instruments[i]
        &&& spec_tune_tracks(p, seed)[i].channel == spec_channel(p.instruments[i], i as nat)
    } by {
        assert(spec_tune_tracks(p, seed)[i] == spec_tracks_from(p, 0, seeded_stream(seed))[i]);
        assert(0 + i == i);
    }
    assert forall|i: int| 0 <= i < p.instruments.len() implies {
        &&& spec_channel(p.instruments[i], i as nat) < 16
        &&& (spec_channel(p.instruments[i], i as nat) == 9 <==> p.instruments[i] == Instrument::Drums)
    } by {
        let j = (i as nat) % 15;
        assert(j < 15);
    }
}

/// Main composition engine.
pub struct CompositionEngine {}

impl CompositionEngine {
    /// Create a new composition engine.
    pub fn new() -> (e: Self) {
        CompositionEngine {  }
    }

    /// Generate a tune from a program. With a seed in the program the tune is
    /// fixed by the program; without one a fresh seed is drawn, and the tune
    /// is the one that seed gives.
    pub fn generate(&self, program: &TuneProgram) -> (r: Result<GeneratedTune, Error>)
        requires
            total_beats(program@) <= MAX_BEATS,
        ensures
            r matches Ok(tune) && {
                &&& tune.program@ == program@
                &&& (program.seed matches Some(s) ==> tune.seed == s)
                &&& track_views(tune.tracks@) == spec_tune_tracks(program@, tune.seed)
                &&& tune.tracks@.len() == program.instruments@.len()
                &&& forall|i: int|
                    0 <= i < tune.tracks@.len() ==> (#[trigger] tune.tracks@[i]).channel < 16 && (
                    tune.tracks@[i].channel == 9 <==> program.instruments@[i] == Instrument::Drums)
                &&& forall|i: int|
                    0 <= i < tune.tracks@.len() ==> events_data_valid(
                        (#[trigger] tune.tracks@[i]).events@,
                    )
            },
    {
        let seed = match program.seed {
            Some(s) => s,
            None => fresh_seed(),
        };
        let mut rng = create_rng(Some(seed));
        let mut tracks: Vec<MidiTrack> = Vec::new();
        let n = program.instruments.len();
        let ghost p = program@;
        proof {
            if program.duration_bars > 0 {
                assert((program.duration_bars - 1) * program.time_signature.0
                    <= program.duration_bars * program.time_signature.0) by (nonlinear_arith);
            }
        }
        let mut idx: usize = 0;
        while idx < n
            invariant
                n == program.instruments@.len(),
                idx <= n,
                p == program@,
                total_beats(p) <= MAX_BEATS,
                bass_fits(program.duration_bars, program.time_signature.0),
                track_views(tracks@) + spec_tracks_from(p, idx as nat, rng_stream(rng))
                    == spec_tune_tracks(p, seed),
                tracks@.len() == idx,
                forall|k: int| 0 <= k < idx ==> events_data_valid((#[trigger] tracks@[k]).events@),
            decreases n - idx,
        {
            let ghost before = tracks@;
            let ghost s0 = rng_stream(rng);
            let instrument = program.instruments[idx];
            let slot = idx % 15;
            let channel: u8 = if instrument.is_drums() {
                9
            } else if slot < 9 {
                slot as u8
            } else {
                (slot + 1) as u8
            };
            let track = match instrument {
                Instrument::Drums => generate_drum_track(program, &mut rng, channel),
                Instrument::Bass => generate_bass_track(program, &mut rng, channel),
                _ => generate_melodic_track(program, instrument, &mut rng, channel),
            };
            let track = match track {
                Ok(t) => t,
                Err(e) => {
                    return Err(e);
                },
            };
            let ghost expected = spec_track(p, instrument, idx as nat, s0);
            assert(track@ == expected.0);
            assert(rng_stream(rng) == expected.1);
            proof {
                if instrument == Instrument::Bass {
                    lemma_bass_events_valid(
                        p.key,
                        p.time_signature.0 as nat,
                        p.duration_bars as nat,
                    );
                } else if instrument != Instrument::Drums {
                    lemma_melody_events_valid(s0, instrument, p.key, total_beats(p), p.base_velocity);
                }
                assert(events_data_valid(track.events@));
            }
            tracks.push(track);
            assert(forall|k: int| 0 <= k < idx ==> tracks@[k] == before[k]);
            assert(track_views(tracks@) =~= track_views(before) + seq![expected.0]);
            assert(spec_tracks_from(p, idx as nat, s0) =~= seq![expected.0] + spec_tracks_from(
                p,
                (idx + 1) as nat,
                rng_stream(rng),
            ));
            assert(track_views(tracks@) + spec_tracks_from(p, (idx + 1) as nat, rng_stream(rng))
                =~= spec_tune_tracks(p, seed));
            idx = idx + 1;
        }
        assert(track_views(tracks@) =~= spec_tune_tracks(p, seed));
        proof {
            lemma_tracks_match_instruments(p, seed);
            assert forall|i: int| 0 <= i < tracks@.len() implies (#[trigger] tracks@[i]).channel < 16
                && (tracks@[i].channel == 9 <==> program.instruments@[i] == Instrument::Drums) by {
                assert(track_views(tracks@)[i] == tracks@[i]@);
            }
        }
        Ok(GeneratedTune { program: program.clone(), tracks, seed })
    }
}

impl Default for CompositionEngine {
    fn default() -> (e: Self) {
        Self::new()
    }
}

} // verus!
