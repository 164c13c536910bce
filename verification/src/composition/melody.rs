//! Melody generation.

use rand::rngs::StdRng;
use vstd::prelude::*;

use crate::composition::harmony::{key_base, key_is_sharp, spec_key_base, spec_key_is_sharp};
use crate::error::Error;
use crate::random::{
    gen_i32_below, gen_index, gen_ratio, gen_u8_below, i32_draw, index_draw, ratio_draw,
    rng_stream, u8_draw,
};
use crate::text::{chars_of, contains_folded, contains_word};
use crate::types::{
    events_data_valid, event_data_valid, is_note_pair, lemma_paired_concat, paired_notes, spec_instrument_name, spec_midi_program,
    total_beats, Instrument, MidiEvent, MidiEventType,
    MidiTrack, TrackView, TuneProgram,
};
use crate::utils::MELODY_MAX_BEATS;

verus! {

/// Root note of a key as the melody reads it: a sharp raises the letter by a
/// semitone, a "flat" lowers it.
pub open spec fn spec_parse_key(k: Seq<char>) -> u8 {
    let base = spec_key_base(k);
    if spec_key_is_sharp(k) {
        (base + 1) as u8
    } else if contains_folded(k, seq!['f', 'l', 'a', 't']) {
        (base - 1) as u8
    } else {
        base
    }
}

/// Parse a key string to its root MIDI note.
pub fn parse_key(key: &str) -> (r: u8)
    ensures
        r == spec_parse_key(key@),
{
    let k = chars_of(key);
    let base = key_base(&k);
    let flat = ['f', 'l', 'a', 't'];
    assert(flat@ =~= seq!['f', 'l', 'a', 't']);
    if key_is_sharp(&k) {
        base + 1
    } else if contains_word(&k, flat.as_slice()) {
        base - 1
    } else {
        base
    }
}

/// The interval of each degree of the melody's pentatonic scale above the
/// root: root, major second, major third, perfect fifth, major sixth.
pub open spec fn spec_degree(idx: u64) -> nat {
    if idx == 0 {
        0
    } else if idx == 1 {
        2
    } else if idx == 2 {
        4
    } else if idx == 3 {
        7
    } else {
        9
    }
}

/// A note of the melody's pentatonic scale, four octaves above the key's
/// root note; a note that would pass 127, the highest MIDI note, is played
/// an octave lower.
pub open spec fn spec_scale_note(root: u8, idx: u64) -> u8 {
    let n = root + 48 + spec_degree(idx);
    if n > 127 {
        (n - 12) as u8
    } else {
        n as u8
    }
}

/// Length of a note in quarter beats: a quarter, a half or a whole beat.
pub open spec fn spec_note_quarters(choice: i32) -> nat {
    if choice == 0 {
        1
    } else if choice == 1 {
        2
    } else {
        4
    }
}

/// Ticks from a note's start to its end: nine tenths of its length.
pub open spec fn spec_note_gap(choice: i32) -> nat {
    if choice == 0 {
        108
    } else if choice == 1 {
        216
    } else {
        432
    }
}

/// `base + offset`, capped at 127, the highest MIDI velocity.
pub open spec fn spec_velocity(base: u8, offset: u8) -> u8 {
    if base + offset > 127 {
        127
    } else {
        (base + offset) as u8
    }
}

/// How far the melody is from its end, in quarter beats.
pub open spec fn spec_remaining(pos: nat, total: nat) -> nat {
    if pos < total {
        (total - pos) as nat
    } else {
        0
    }
}

/// The melody notes from quarter-beat position `pos` up to `total`, drawn
/// from `stream`: per note, the scale degree (one of five), the length
/// choice (one of three), the velocity offset (below 20), and whether a
/// half-beat rest follows (one in ten). Also the stream left afterwards.
pub open spec fn spec_melody_notes(
    stream: Map<int, u32>,
    pos: nat,
    total: nat,
    root: u8,
    base: u8,
) -> (Seq<MidiEvent>, Map<int, u32>)
    decreases spec_remaining(pos, total),
{
    if pos >= total {
        (seq![], stream)
    } else {
        let (idx, s1) = index_draw(stream, 5);
        let (choice, s2) = i32_draw(s1, 3);
        let (offset, s3) = u8_draw(s2, 20);
        let (rest_after, s4) = ratio_draw(s3, 1, 10);
        let note = spec_scale_note(root, idx);
        let time = pos * 120;
        let events = seq![
            MidiEvent {
                time: time as u32,
                event_type: MidiEventType::NoteOn { note, velocity: spec_velocity(base, offset) },
            },
            MidiEvent {
                time: (time + spec_note_gap(choice)) as u32,
                event_type: MidiEventType::NoteOff { note },
            },
        ];
        let next = pos + spec_note_quarters(choice) + if rest_after { 2nat } else { 0nat };
        let (more, s5) = spec_melody_notes(s4, next, total, root, base);
        (events + more, s5)
    }
}

/// The events of a melodic track: the program change, then the notes.
pub open spec fn spec_melody_events(
    stream: Map<int, u32>,
    instrument: Instrument,
    key: Seq<char>,
    beats: nat,
    base: u8,
) -> Seq<MidiEvent> {
    seq![
        MidiEvent {
            time: 0,
            event_type: MidiEventType::ProgramChange { program: spec_midi_program(instrument) },
        },
    ] + spec_melody_notes(stream, 0, beats * 4, spec_parse_key(key), base).0
}

/// Every melody note is a note on followed by its note off.
pub proof fn lemma_melody_paired(stream: Map<int, u32>, pos: nat, total: nat, root: u8, base: u8)
    requires
        total <= 4 * MELODY_MAX_BEATS,
    ensures
        paired_notes(spec_melody_notes(stream, pos, total, root, base).0),
    decreases spec_remaining(pos, total),
{
    if pos < total {
        let (idx, s1) = index_draw(stream, 5);
        let (choice, s2) = i32_draw(s1, 3);
        let (offset, s3) = u8_draw(s2, 20);
        let (rest_after, s4) = ratio_draw(s3, 1, 10);
        let note = spec_scale_note(root, idx);
        let time = pos * 120;
        assert(time <= 4 * MELODY_MAX_BEATS * 120) by (nonlinear_arith)
            requires
                pos < total,
                total <= 4 * MELODY_MAX_BEATS,
                time == pos * 120,
        ;
        let events = seq![
            MidiEvent {
                time: time as u32,
                event_type: MidiEventType::NoteOn { note, velocity: spec_velocity(base, offset) },
            },
            MidiEvent {
                time: (time + spec_note_gap(choice)) as u32,
                event_type: MidiEventType::NoteOff { note },
            },
        ];
        assert(events.subrange(2, 2) =~= seq![]);
        assert(paired_notes(events.subrange(2, 2)));
        assert(is_note_pair(events[0], events[1]));
        let next = pos + spec_note_quarters(choice) + if rest_after { 2nat } else { 0nat };
        lemma_melody_paired(s4, next, total, root, base);
        lemma_paired_concat(events, spec_melody_notes(s4, next, total, root, base).0);
    }
}

/// Equal generator states give equal melodic tracks: the events and the
/// state left afterwards depend on the generator only through the stream it
/// will produce.
pub proof fn lemma_melody_deterministic(
    first: StdRng,
    second: StdRng,
    instrument: Instrument,
    key: Seq<char>,
    beats: nat,
    base: u8,
)
    requires
        rng_stream(first) == rng_stream(second),
    ensures
        spec_melody_events(rng_stream(first), instrument, key, beats, base) == spec_melody_events(
            rng_stream(second),
            instrument,
            key,
            beats,
            base,
        ),
        spec_melody_notes(rng_stream(first), 0, beats * 4, spec_parse_key(key), base).1
            == spec_melody_notes(rng_stream(second), 0, beats * 4, spec_parse_key(key), base).1,
{
}

/// The melody's root note is at most 72 (B and a sharp).
pub proof fn lemma_root_bound(k: Seq<char>)
    ensures
        spec_parse_key(k) <= 72,
{
}

/// `note` is a note of the major pentatonic scale four octaves above
/// `root`: root, major second, major third, perfect fifth or major sixth
/// (0, 2, 4, 7 or 9 semitones up), taken an octave lower where it would
/// pass 127.
pub open spec fn in_major_pentatonic(root: u8, note: u8) -> bool {
    ||| note_above(root, note, 0)
    ||| note_above(root, note, 2)
    ||| note_above(root, note, 4)
    ||| note_above(root, note, 7)
    ||| note_above(root, note, 9)
}

/// `note` is `d` semitones above `root` plus four octaves, or an octave
/// lower where that would pass 127.
pub open spec fn note_above(root: u8, note: u8, d: int) -> bool {
    let n = root + 48 + d;
    (n <= 127 && note == n) || (n > 127 && note == n - 12)
}

/// Every note of the melody, on and off, is in the key's major pentatonic
/// scale, and every note on is followed by the note off of the same note.
pub proof fn lemma_melody_pentatonic(stream: Map<int, u32>, pos: nat, total: nat, root: u8, base: u8)
    requires
        root <= 72,
    ensures
        forall|i: int|
            0 <= i < spec_melody_notes(stream, pos, total, root, base).0.len() ==> {
                let e = #[trigger] spec_melody_notes(stream, pos, total, root, base).0[i];
                &&& (e.event_type matches MidiEventType::NoteOn { note, .. } ==> in_major_pentatonic(
                    root,
                    note,
                ))
                &&& (e.event_type matches MidiEventType::NoteOff { note } ==> in_major_pentatonic(
                    root,
                    note,
                ))
            },
    decreases spec_remaining(pos, total),
{
    if pos < total {
        let (idx, s1) = index_draw(stream, 5);
        let (choice, s2) = i32_draw(s1, 3);
        let (offset, s3) = u8_draw(s2, 20);
        let (rest_after, s4) = ratio_draw(s3, 1, 10);
        let next = pos + spec_note_quarters(choice) + if rest_after { 2nat } else { 0nat };
        lemma_melody_pentatonic(s4, next, total, root, base);
        let note = spec_scale_note(root, idx);
        assert(note_above(root, note, spec_degree(idx) as int));
        assert(in_major_pentatonic(root, note));
        let all = spec_melody_notes(stream, pos, total, root, base).0;
        let more = spec_melody_notes(s4, next, total, root, base).0;
        assert forall|i: int| 0 <= i < all.len() implies {
            let e = #[trigger] all[i];
            &&& (e.event_type matches MidiEventType::NoteOn { note, .. } ==> in_major_pentatonic(
                root,
                note,
            ))
            &&& (e.event_type matches MidiEventType::NoteOff { note } ==> in_major_pentatonic(
                root,
                note,
            ))
        } by {
            if i >= 2 {
                assert(all[i] == more[i - 2]);
            }
        }
    }
}

/// The notes of a melodic track are those of the key's major pentatonic
/// scale: every note on and note off, minus the key's root plus 48, is 0,
/// 2, 4, 7 or 9 semitones (less an octave where the note would pass 127).
pub proof fn lemma_melody_events_pentatonic(
    stream: Map<int, u32>,
    instrument: Instrument,
    key: Seq<char>,
    beats: nat,
    base: u8,
)
    ensures
        forall|i: int|
            0 <= i < spec_melody_events(stream, instrument, key, beats, base).len() ==> {
                let e = #[trigger] spec_melody_events(stream, instrument, key, beats, base)[i];
                &&& (e.event_type matches MidiEventType::NoteOn { note, .. } ==> in_major_pentatonic(
                    spec_parse_key(key),
                    note,
                ))
                &&& (e.event_type matches MidiEventType::NoteOff { note } ==> in_major_pentatonic(
                    spec_parse_key(key),
                    note,
                ))
            },
{
    let root = spec_parse_key(key);
    lemma_root_bound(key);
    lemma_melody_pentatonic(stream, 0, beats * 4, root, base);
    let notes = spec_melody_notes(stream, 0, beats * 4, root, base).0;
    let all = spec_melody_events(stream, instrument, key, beats, base);
    assert forall|i: int| 0 <= i < all.len() implies {
        let e = #[trigger] all[i];
        &&& (e.event_type matches MidiEventType::NoteOn { note, .. } ==> in_major_pentatonic(
            root,
            note,
        ))
        &&& (e.event_type matches MidiEventType::NoteOff { note } ==> in_major_pentatonic(
            root,
            note,
        ))
    } by {
        if i >= 1 {
            assert(all[i] == notes[i - 1]);
        }
    }
}

/// Every melody note is a MIDI note and every velocity a MIDI velocity.
pub proof fn lemma_melody_data_valid(stream: Map<int, u32>, pos: nat, total: nat, root: u8, base: u8)
    requires
        root <= 72,
    ensures
        events_data_valid(spec_melody_notes(stream, pos, total, root, base).0),
    decreases spec_remaining(pos, total),
{
    if pos < total {
        let (idx, s1) = index_draw(stream, 5);
        let (choice, s2) = i32_draw(s1, 3);
        let (offset, s3) = u8_draw(s2, 20);
        let (rest_after, s4) = ratio_draw(s3, 1, 10);
        let next = pos + spec_note_quarters(choice) + if rest_after { 2nat } else { 0nat };
        lemma_melody_data_valid(s4, next, total, root, base);
        let all = spec_melody_notes(stream, pos, total, root, base).0;
        let more = spec_melody_notes(s4, next, total, root, base).0;
        assert forall|i: int| 0 <= i < all.len() implies event_data_valid(#[trigger] all[i]) by {
            if i >= 2 {
                assert(all[i] == more[i - 2]);
            }
        }
    }
}

/// A melodic track's events: a program change of a General MIDI program,
/// then notes and velocities that are all MIDI data bytes.
pub proof fn lemma_melody_events_valid(
    stream: Map<int, u32>,
    instrument: Instrument,
    key: Seq<char>,
    beats: nat,
    base: u8,
)
    ensures
        events_data_valid(spec_melody_events(stream, instrument, key, beats, base)),
{
    lemma_root_bound(key);
    lemma_melody_data_valid(stream, 0, beats * 4, spec_parse_key(key), base);
    let notes = spec_melody_notes(stream, 0, beats * 4, spec_parse_key(key), base).0;
    let all = spec_melody_events(stream, instrument, key, beats, base);
    assert forall|i: int| 0 <= i < all.len() implies event_data_valid(#[trigger] all[i]) by {
        if i >= 1 {
            assert(all[i] == notes[i - 1]);
        }
    }
}

/// Generate a melodic track (piano, synth, ...): notes of the pentatonic
/// scale with drawn lengths, velocities and rests, until the tune's end.
pub fn generate_melodic_track(
    program: &TuneProgram,
    instrument: Instrument,
    rng: &mut StdRng,
    channel: u8,
) -> (r: Result<MidiTrack, Error>)
    requires
        total_beats(program@) <= MELODY_MAX_BEATS,
    ensures
        r matches Ok(track) && track@ == (TrackView {
            name: spec_instrument_name(instrument),
            instrument,
            channel,
            events: spec_melody_events(
                rng_stream(*old(rng)),
                instrument,
                program.key@,
                total_beats(program@),
                program.base_velocity,
            ),
        }),
        rng_stream(*final(rng)) == spec_melody_notes(
            rng_stream(*old(rng)),
            0,
            total_beats(program@) * 4,
            spec_parse_key(program.key@),
            program.base_velocity,
        ).1,
        r matches Ok(track) && events_data_valid(track.events@),
        r matches Ok(track) && forall|i: int|
            0 <= i < track.events@.len() ==> {
                let e = #[trigger] track.events@[i];
                &&& (e.event_type matches MidiEventType::NoteOn { note, .. } ==> in_major_pentatonic(
                    spec_parse_key(program.key@),
                    note,
                ))
                &&& (e.event_type matches MidiEventType::NoteOff { note } ==> in_major_pentatonic(
                    spec_parse_key(program.key@),
                    note,
                ))
            },
{
    let mut events: Vec<MidiEvent> = Vec::new();
    events.push(
        MidiEvent {
            time: 0,
            event_type: MidiEventType::ProgramChange { program: instrument.midi_program() },
        },
    );
    let root = parse_key(program.key.as_str());
    let base = program.base_velocity;
    let total = program.duration_bars * program.time_signature.0 * 4;
    let ghost start = rng_stream(*rng);
    let ghost full = spec_melody_notes(start, 0, total as nat, root, base);
    let ghost head = events@;
    let mut pos: u32 = 0;
    while pos < total
        invariant
            total <= 4 * MELODY_MAX_BEATS,
            total == total_beats(program@) * 4,
            pos <= total + 6,
            root == spec_parse_key(program.key@),
            base == program.base_velocity,
            events@ + spec_melody_notes(rng_stream(*rng), pos as nat, total as nat, root, base).0
                == head + full.0,
            spec_melody_notes(rng_stream(*rng), pos as nat, total as nat, root, base).1 == full.1,
        decreases total + 6 - pos,
    {
        let ghost before = events@;
        let ghost s0 = rng_stream(*rng);
        let ghost p0 = pos;
        let idx = gen_index(rng, 5);
        let degree: u8 = if idx == 0 {
            0
        } else if idx == 1 {
            2
        } else if idx == 2 {
            4
        } else if idx == 3 {
            7
        } else {
            9
        };
        let high = root + 48 + degree;
        let note = if high > 127 {
            high - 12
        } else {
            high
        };
        assert(note == spec_scale_note(root, idx as u64));
        let choice = gen_i32_below(rng, 3);
        let (quarters, gap): (u32, u32) = match choice {
            0 => (1, 108),
            1 => (2, 216),
            _ => (4, 432),
        };
        let offset = gen_u8_below(rng, 20);
        let sum = base.saturating_add(offset);
        let velocity = if sum > 127 {
            127
        } else {
            sum
        };
        let time = pos * 120;
        let on = MidiEvent { time, event_type: MidiEventType::NoteOn { note, velocity } };
        let off = MidiEvent { time: time + gap, event_type: MidiEventType::NoteOff { note } };
        events.push(on);
        events.push(off);
        pos = pos + quarters;
        if gen_ratio(rng, 1, 10) {
            pos = pos + 2;
        }
        assert(spec_melody_notes(s0, p0 as nat, total as nat, root, base).0 =~= seq![on, off]
            + spec_melody_notes(rng_stream(*rng), pos as nat, total as nat, root, base).0);
        assert(events@ =~= before + seq![on, off]);
        assert(events@ + spec_melody_notes(rng_stream(*rng), pos as nat, total as nat, root, base).0
            =~= head + full.0);
    }
    assert(events@ =~= head + full.0);
    proof {
        lemma_melody_events_valid(start, instrument, program.key@, total_beats(program@), base);
        lemma_melody_events_pentatonic(start, instrument, program.key@, total_beats(program@), base);
    }
    Ok(MidiTrack { name: instrument.name(), instrument, channel, events })
}

} // verus!
