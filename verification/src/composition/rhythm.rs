//! Rhythm generation: drums and percussion.

use rand::rngs::StdRng;
use vstd::prelude::*;

use crate::error::Error;
use crate::random::{gen_i32_below, gen_ratio, i32_draw, ratio_draw, rng_stream};
use crate::types::{event_data_valid, events_data_valid, is_note_pair, lemma_data_valid_concat, lemma_paired_concat, paired_notes, total_beats, Instrument, MidiEvent, MidiEventType, MidiTrack, TrackView, TuneProgram};
use crate::utils::{DRUM_MAX_BEATS, TICKS_PER_BEAT};

verus! {

/// General MIDI kick drum.
pub const KICK: u8 = 36;

/// General MIDI snare drum.
pub const SNARE: u8 = 38;

/// General MIDI closed hi-hat.
pub const CLOSED_HAT: u8 = 42;

/// General MIDI open hi-hat.
pub const OPEN_HAT: u8 = 46;

/// A drum hit: note on, and note off ten ticks later.
pub open spec fn spec_hit(time: int, note: u8, velocity: u8) -> Seq<MidiEvent> {
    seq![
        MidiEvent { time: time as u32, event_type: MidiEventType::NoteOn { note, velocity } },
        MidiEvent { time: (time + 10) as u32, event_type: MidiEventType::NoteOff { note } },
    ]
}

/// The hits of one beat: kick on beats 1 and 3 of the bar, snare on beats 2
/// and 4, a hi-hat (closed or open as drawn, velocity 70 plus the drawn
/// offset), and a closed hi-hat on the off-beat.
pub open spec fn spec_drum_beat(beat: nat, beats_per_bar: nat, closed: bool, offset: i32) -> Seq<
    MidiEvent,
> {
    let t = beat * 480;
    let in_bar = beat % beats_per_bar;
    let kick = if in_bar == 0 || in_bar == 2 { spec_hit(t as int, KICK, 100) } else { seq![] };
    let snare = if in_bar == 1 || in_bar == 3 { spec_hit(t as int, SNARE, 90) } else { seq![] };
    let hat = spec_hit(t as int, if closed { CLOSED_HAT } else { OPEN_HAT }, (70 + offset) as u8);
    kick + snare + hat + spec_hit((t + 240) as int, CLOSED_HAT, 60)
}

/// The drum events of beats `beat..total`, drawn from `stream`: per beat,
/// first whether the hi-hat is closed (nine in ten), then the hi-hat's
/// velocity offset (below 20). Also the stream left afterwards.
pub open spec fn spec_drum_beats(stream: Map<int, u32>, beat: nat, total: nat, beats_per_bar: nat) -> (
    Seq<MidiEvent>,
    Map<int, u32>,
)
    decreases total - beat,
{
    if beat >= total {
        (seq![], stream)
    } else {
        let (closed, s1) = ratio_draw(stream, 9, 10);
        let (offset, s2) = i32_draw(s1, 20);
        let (rest, s3) = spec_drum_beats(s2, beat + 1, total, beats_per_bar);
        (spec_drum_beat(beat, beats_per_bar, closed, offset) + rest, s3)
    }
}

proof fn lemma_hit_paired(time: int, note: u8, velocity: u8)
    requires
        0 <= time,
        time + 10 <= u32::MAX,
    ensures
        paired_notes(spec_hit(time, note, velocity)),
{
    let h = spec_hit(time, note, velocity);
    assert(h.subrange(2, 2) =~= seq![]);
    assert(paired_notes(h.subrange(2, 2)));
    assert(is_note_pair(h[0], h[1]));
}

proof fn lemma_drum_beat_paired(beat: nat, beats_per_bar: nat, closed: bool, offset: i32)
    requires
        beat < DRUM_MAX_BEATS,
    ensures
        paired_notes(spec_drum_beat(beat, beats_per_bar, closed, offset)),
{
    let t = beat * 480;
    assert(t <= DRUM_MAX_BEATS * 480) by (nonlinear_arith)
        requires
            beat < DRUM_MAX_BEATS,
            t == beat * 480,
    ;
    let in_bar = beat % beats_per_bar;
    let kick = if in_bar == 0 || in_bar == 2 { spec_hit(t as int, KICK, 100) } else { seq![] };
    let snare = if in_bar == 1 || in_bar == 3 { spec_hit(t as int, SNARE, 90) } else { seq![] };
    let hat = spec_hit(t as int, if closed { CLOSED_HAT } else { OPEN_HAT }, (70 + offset) as u8);
    let off = spec_hit((t + 240) as int, CLOSED_HAT, 60);
    lemma_hit_paired(t as int, KICK, 100);
    lemma_hit_paired(t as int, SNARE, 90);
    lemma_hit_paired(t as int, if closed { CLOSED_HAT } else { OPEN_HAT }, (70 + offset) as u8);
    lemma_hit_paired((t + 240) as int, CLOSED_HAT, 60);
    assert(paired_notes(seq![]));
    lemma_paired_concat(kick, snare);
    lemma_paired_concat(kick + snare, hat);
    lemma_paired_concat(kick + snare + hat, off);
}

proof fn lemma_hit_valid(time: int, note: u8, velocity: u8)
    requires
        note <= 127,
        velocity <= 127,
    ensures
        events_data_valid(spec_hit(time, note, velocity)),
{
    let h = spec_hit(time, note, velocity);
    assert(event_data_valid(h[0]) && event_data_valid(h[1]));
}

/// The hits of a beat are MIDI data bytes when the hi-hat's offset is one
/// the generator can draw (below 20).
proof fn lemma_drum_beat_valid(beat: nat, beats_per_bar: nat, closed: bool, offset: i32)
    requires
        0 <= offset < 20,
    ensures
        events_data_valid(spec_drum_beat(beat, beats_per_bar, closed, offset)),
{
    let t = beat * 480;
    let in_bar = beat % beats_per_bar;
    let kick = if in_bar == 0 || in_bar == 2 { spec_hit(t as int, KICK, 100) } else { seq![] };
    let snare = if in_bar == 1 || in_bar == 3 { spec_hit(t as int, SNARE, 90) } else { seq![] };
    let hat = spec_hit(t as int, if closed { CLOSED_HAT } else { OPEN_HAT }, (70 + offset) as u8);
    let off = spec_hit((t + 240) as int, CLOSED_HAT, 60);
    lemma_hit_valid(t as int, KICK, 100);
    lemma_hit_valid(t as int, SNARE, 90);
    lemma_hit_valid(t as int, if closed { CLOSED_HAT } else { OPEN_HAT }, (70 + offset) as u8);
    lemma_hit_valid((t + 240) as int, CLOSED_HAT, 60);
    assert(events_data_valid(seq![]));
    lemma_data_valid_concat(kick, snare);
    lemma_data_valid_concat(kick + snare, hat);
    lemma_data_valid_concat(kick + snare + hat, off);
}

/// Beat `b` is a kick beat: the first or third beat of its bar.
pub open spec fn kick_beat(bpb: nat, b: nat) -> bool {
    b % bpb == 0 || b % bpb == 2
}

/// Beat `b` is a snare beat: the second or fourth beat of its bar.
pub open spec fn snare_beat(bpb: nat, b: nat) -> bool {
    b % bpb == 1 || b % bpb == 3
}

/// `e` is a note on of note `n`.
pub open spec fn is_note_on(e: MidiEvent, n: u8) -> bool {
    e.event_type matches MidiEventType::NoteOn { note, .. } && note == n
}

/// A note on at the start of beat `b`.
pub open spec fn on_beat(b: nat, note: u8, velocity: u8) -> MidiEvent {
    MidiEvent { time: (b * 480) as u32, event_type: MidiEventType::NoteOn { note, velocity } }
}

/// A kick (note 36) is struck, at velocity 100, exactly at the start of the
/// kick beats, and a snare (note 38), at velocity 90, exactly at the start
/// of the snare beats, of beats `beat` to `total`.
pub open spec fn drum_pattern(events: Seq<MidiEvent>, beat: nat, total: nat, bpb: nat) -> bool {
    &&& forall|b: nat|
        beat <= b < total && kick_beat(bpb, b) ==> events.contains(#[trigger] on_beat(b, 36, 100))
    &&& forall|b: nat|
        beat <= b < total && snare_beat(bpb, b) ==> events.contains(#[trigger] on_beat(b, 38, 90))
    &&& forall|i: int|
        0 <= i < events.len() && is_note_on(#[trigger] events[i], 36) ==> exists|b: nat|
            beat <= b < total && kick_beat(bpb, b) && events[i] == #[trigger] on_beat(b, 36, 100)
    &&& forall|i: int|
        0 <= i < events.len() && is_note_on(#[trigger] events[i], 38) ==> exists|b: nat|
            beat <= b < total && snare_beat(bpb, b) && events[i] == #[trigger] on_beat(b, 38, 90)
}

proof fn lemma_drum_beat_pattern(beat: nat, bpb: nat, closed: bool, offset: i32, total: nat)
    requires
        beat < total,
        bpb > 0,
    ensures
        drum_pattern(spec_drum_beat(beat, bpb, closed, offset), beat, beat + 1, bpb),
{
    let t = beat * 480;
    let in_bar = beat % bpb;
    let kick = if in_bar == 0 || in_bar == 2 { spec_hit(t as int, KICK, 100) } else { seq![] };
    let snare = if in_bar == 1 || in_bar == 3 { spec_hit(t as int, SNARE, 90) } else { seq![] };
    let hat = spec_hit(t as int, if closed { CLOSED_HAT } else { OPEN_HAT }, (70 + offset) as u8);
    let off = spec_hit((t + 240) as int, CLOSED_HAT, 60);
    let all = spec_drum_beat(beat, bpb, closed, offset);
    assert(all == kick + snare + hat + off);
    if kick_beat(bpb, beat) {
        assert(all[0] == on_beat(beat, 36, 100));
    }
    if snare_beat(bpb, beat) {
        assert(all[kick.len() as int] == on_beat(beat, 38, 90));
    }
    assert forall|b: nat| beat <= b < beat + 1 && kick_beat(bpb, b) implies all.contains(
        #[trigger] on_beat(b, 36, 100),
    ) by {
        assert(b == beat);
        assert(all[0] == on_beat(beat, 36, 100));
    }
    assert forall|b: nat| beat <= b < beat + 1 && snare_beat(bpb, b) implies all.contains(
        #[trigger] on_beat(b, 38, 90),
    ) by {
        assert(b == beat);
        assert(all[kick.len() as int] == on_beat(beat, 38, 90));
    }
    assert forall|i: int|
        0 <= i < all.len() && is_note_on(#[trigger] all[i], 36) implies exists|b: nat|
        beat <= b < beat + 1 && kick_beat(bpb, b) && all[i] == #[trigger] on_beat(b, 36, 100) by {
        let k = kick.len() as int;
        let sn = snare.len() as int;
        if i < k {
            assert(all[i] == kick[i]);
        } else if i < k + sn {
            assert(all[i] == snare[i - k]);
        } else if i < k + sn + 2 {
            assert(all[i] == hat[i - k - sn]);
        } else {
            assert(all[i] == off[i - k - sn - 2]);
        }
        assert(all[i] == on_beat(beat, 36, 100));
    }
    assert forall|i: int|
        0 <= i < all.len() && is_note_on(#[trigger] all[i], 38) implies exists|b: nat|
        beat <= b < beat + 1 && snare_beat(bpb, b) && all[i] == #[trigger] on_beat(b, 38, 90) by {
        let k = kick.len() as int;
        let sn = snare.len() as int;
        if i < k {
            assert(all[i] == kick[i]);
        } else if i < k + sn {
            assert(all[i] == snare[i - k]);
        } else if i < k + sn + 2 {
            assert(all[i] == hat[i - k - sn]);
        } else {
            assert(all[i] == off[i - k - sn - 2]);
        }
        assert(all[i] == on_beat(beat, 38, 90));
    }
}

proof fn lemma_drum_pattern_concat(a: Seq<MidiEvent>, b: Seq<MidiEvent>, beat: nat, mid: nat, total: nat, bpb: nat)
    requires
        beat <= mid <= total,
        drum_pattern(a, beat, mid, bpb),
        drum_pattern(b, mid, total, bpb),
    ensures
        drum_pattern(a + b, beat, total, bpb),
{
    let all = a + b;
    assert forall|x: nat| beat <= x < total && kick_beat(bpb, x) implies all.contains(
        #[trigger] on_beat(x, 36, 100),
    ) by {
        let e = on_beat(x, 36, 100);
        if x < mid {
            assert(a.contains(e));
            let k = choose|k: int| 0 <= k < a.len() && a[k] == e;
            assert(all[k] == e);
        } else {
            assert(b.contains(e));
            let k = choose|k: int| 0 <= k < b.len() && b[k] == e;
            assert(all[a.len() + k] == e);
        }
    }
    assert forall|x: nat| beat <= x < total && snare_beat(bpb, x) implies all.contains(
        #[trigger] on_beat(x, 38, 90),
    ) by {
        let e = on_beat(x, 38, 90);
        if x < mid {
            assert(a.contains(e));
            let k = choose|k: int| 0 <= k < a.len() && a[k] == e;
            assert(all[k] == e);
        } else {
            assert(b.contains(e));
            let k = choose|k: int| 0 <= k < b.len() && b[k] == e;
            assert(all[a.len() + k] == e);
        }
    }
    assert forall|i: int| 0 <= i < all.len() && is_note_on(#[trigger] all[i], 36) implies exists|x: nat|
        beat <= x < total && kick_beat(bpb, x) && all[i] == #[trigger] on_beat(x, 36, 100) by {
        if i < a.len() {
            assert(all[i] == a[i]);
            assert(is_note_on(a[i], 36));
        } else {
            assert(all[i] == b[i - a.len()]);
            assert(is_note_on(b[i - a.len()], 36));
        }
    }
    assert forall|i: int| 0 <= i < all.len() && is_note_on(#[trigger] all[i], 38) implies exists|x: nat|
        beat <= x < total && snare_beat(bpb, x) && all[i] == #[trigger] on_beat(x, 38, 90) by {
        if i < a.len() {
            assert(all[i] == a[i]);
            assert(is_note_on(a[i], 38));
        } else {
            assert(all[i] == b[i - a.len()]);
            assert(is_note_on(b[i - a.len()], 38));
        }
    }
}

/// The drum pattern: over beats `beat` to `total`, a kick (note 36,
/// velocity 100) is struck exactly at the start of the first and third
/// beats of each bar, and a snare (note 38, velocity 90) exactly at the
/// start of the second and fourth, whatever the generator draws.
pub proof fn lemma_drum_pattern(stream: Map<int, u32>, beat: nat, total: nat, bpb: nat)
    requires
        bpb > 0,
        beat <= total,
    ensures
        drum_pattern(spec_drum_beats(stream, beat, total, bpb).0, beat, total, bpb),
    decreases total - beat,
{
    if beat < total {
        let (closed, s1) = ratio_draw(stream, 9, 10);
        let (offset, s2) = i32_draw(s1, 20);
        lemma_drum_beat_pattern(beat, bpb, closed, offset, total);
        lemma_drum_pattern(s2, beat + 1, total, bpb);
        lemma_drum_pattern_concat(
            spec_drum_beat(beat, bpb, closed, offset),
            spec_drum_beats(s2, beat + 1, total, bpb).0,
            beat,
            beat + 1,
            total,
            bpb,
        );
    } else {
        let e = spec_drum_beats(stream, beat, total, bpb).0;
        assert(e.len() == 0);
    }
}

/// Every drum hit is a note on followed by its note off.
pub proof fn lemma_drum_beats_paired(stream: Map<int, u32>, beat: nat, total: nat, beats_per_bar: nat)
    requires
        total <= DRUM_MAX_BEATS,
    ensures
        paired_notes(spec_drum_beats(stream, beat, total, beats_per_bar).0),
    decreases total - beat,
{
    if beat < total {
        let (closed, s1) = ratio_draw(stream, 9, 10);
        let (offset, s2) = i32_draw(s1, 20);
        lemma_drum_beat_paired(beat, beats_per_bar, closed, offset);
        lemma_drum_beats_paired(s2, beat + 1, total, beats_per_bar);
        lemma_paired_concat(
            spec_drum_beat(beat, beats_per_bar, closed, offset),
            spec_drum_beats(s2, beat + 1, total, beats_per_bar).0,
        );
    }
}

/// Add a drum hit (note on, and note off ten ticks later).
fn add_hit(events: &mut Vec<MidiEvent>, time: u32, note: u8, velocity: u8)
    requires
        time + 10 <= u32::MAX,
    ensures
        final(events)@ == old(events)@ + spec_hit(time as int, note, velocity),
{
    events.push(MidiEvent { time, event_type: MidiEventType::NoteOn { note, velocity } });
    events.push(MidiEvent { time: time + 10, event_type: MidiEventType::NoteOff { note } });
    assert(final(events)@ =~= old(events)@ + spec_hit(time as int, note, velocity));
}

/// Generate a drum track: a steady pattern over every beat of the tune,
/// with the hi-hat's sound and velocity drawn from the generator.
pub fn generate_drum_track(program: &TuneProgram, rng: &mut StdRng, channel: u8) -> (r: Result<
    MidiTrack,
    Error,
>)
    requires
        total_beats(program@) <= DRUM_MAX_BEATS,
    ensures
        r matches Ok(track) && track@ == (TrackView {
            name: "Drums"@,
            instrument: Instrument::Drums,
            channel,
            events: spec_drum_beats(
                rng_stream(*old(rng)),
                0,
                total_beats(program@),
                program.time_signature.0 as nat,
            ).0,
        }),
        rng_stream(*final(rng)) == spec_drum_beats(
            rng_stream(*old(rng)),
            0,
            total_beats(program@),
            program.time_signature.0 as nat,
        ).1,
        r matches Ok(track) && events_data_valid(track.events@),
        r matches Ok(track) && (program.time_signature.0 > 0 ==> drum_pattern(
            track.events@,
            0,
            total_beats(program@),
            program.time_signature.0 as nat,
        )),
{
    let mut events: Vec<MidiEvent> = Vec::new();
    let bpb = program.time_signature.0;
    let total = program.duration_bars * bpb;
    let ghost start = rng_stream(*rng);
    let ghost full = spec_drum_beats(start, 0, total as nat, bpb as nat);
    let mut beat: u32 = 0;
    while beat < total
        invariant
            beat <= total,
            total <= DRUM_MAX_BEATS,
            total == total_beats(program@),
            bpb == program.time_signature.0,
            full == spec_drum_beats(start, 0, total as nat, bpb as nat),
            events@ + spec_drum_beats(rng_stream(*rng), beat as nat, total as nat, bpb as nat).0
                == full.0,
            spec_drum_beats(rng_stream(*rng), beat as nat, total as nat, bpb as nat).1 == full.1,
            events_data_valid(events@),
        decreases total - beat,
    {
        let ghost s0 = rng_stream(*rng);
        let ghost before = events@;
        let time = beat * TICKS_PER_BEAT;
        assert(bpb > 0) by (nonlinear_arith)
            requires
                beat < total,
                total == program.duration_bars * bpb,
        ;
        let in_bar = beat % bpb;
        if in_bar == 0 || in_bar == 2 {
            add_hit(&mut events, time, KICK, 100);
        }
        if in_bar == 1 || in_bar == 3 {
            add_hit(&mut events, time, SNARE, 90);
        }
        let closed = gen_ratio(rng, 9, 10);
        let hat = if closed {
            CLOSED_HAT
        } else {
            OPEN_HAT
        };
        let offset = gen_i32_below(rng, 20);
        let velocity = (70 + offset) as u8;
        add_hit(&mut events, time, hat, velocity);
        add_hit(&mut events, time + 240, CLOSED_HAT, 60);
        assert(events@ =~= before + spec_drum_beat(beat as nat, bpb as nat, closed, offset));
        proof {
            lemma_drum_beat_valid(beat as nat, bpb as nat, closed, offset);
            lemma_data_valid_concat(before, spec_drum_beat(beat as nat, bpb as nat, closed, offset));
        }
        assert(events@ + spec_drum_beats(
            rng_stream(*rng),
            (beat + 1) as nat,
            total as nat,
            bpb as nat,
        ).0 =~= full.0);
        beat = beat + 1;
    }
    proof {
        if bpb > 0 {
            lemma_drum_pattern(start, 0, total as nat, bpb as nat);
        }
    }
    Ok(MidiTrack { name: "Drums".to_owned(), instrument: Instrument::Drums, channel, events })
}

} // verus!
