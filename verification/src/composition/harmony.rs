//! Harmony generation: keys, chord progression and the bass line.

use rand::rngs::StdRng;
use vstd::prelude::*;

use crate::error::Error;
use crate::random::rng_stream;
use crate::types::{event_data_valid, events_data_valid, is_note_pair, lemma_data_valid_concat, lemma_paired_concat, paired_notes, Instrument, MidiEvent, MidiEventType, MidiTrack, TrackView, TuneProgram};
use crate::utils::{BASS_LAST_BEAT, TICKS_PER_BEAT};
use crate::text::{chars_of, contains_folded, contains_word, fold, folds_to, starts_folded};

verus! {

/// Root MIDI note of the key's letter (C4 = 60); C when the key starts
/// with no note letter.
pub open spec fn spec_key_base(k: Seq<char>) -> u8 {
    if k.len() == 0 {
        60
    } else {
        let c = fold(k[0]);
        if c == 'c' {
            60
        } else if c == 'd' {
            62
        } else if c == 'e' {
            64
        } else if c == 'f' {
            65
        } else if c == 'g' {
            67
        } else if c == 'a' {
            69
        } else if c == 'b' {
            71
        } else {
            60
        }
    }
}

/// The key names a sharp: it holds '#' or "sharp", in any case.
pub open spec fn spec_key_is_sharp(k: Seq<char>) -> bool {
    contains_folded(k, seq!['#']) || contains_folded(k, seq!['s', 'h', 'a', 'r', 'p'])
}

/// Root note of a key as the harmony reads it: a sharp raises the letter by
/// a semitone; otherwise a 'b' anywhere but in first place lowers it.
pub open spec fn spec_parse_key(k: Seq<char>) -> u8 {
    let base = spec_key_base(k);
    if spec_key_is_sharp(k) {
        (base + 1) as u8
    } else if contains_folded(k, seq!['b']) && !starts_folded(k, seq!['b']) {
        (base - 1) as u8
    } else {
        base
    }
}

/// Root note of the key's letter.
pub fn key_base(k: &Vec<char>) -> (r: u8)
    ensures
        r == spec_key_base(k@),
{
    if k.len() == 0 {
        60
    } else if folds_to(k[0], 'c') {
        60
    } else if folds_to(k[0], 'd') {
        62
    } else if folds_to(k[0], 'e') {
        64
    } else if folds_to(k[0], 'f') {
        65
    } else if folds_to(k[0], 'g') {
        67
    } else if folds_to(k[0], 'a') {
        69
    } else if folds_to(k[0], 'b') {
        71
    } else {
        60
    }
}

/// Whether the key names a sharp.
pub fn key_is_sharp(k: &Vec<char>) -> (b: bool)
    ensures
        b == spec_key_is_sharp(k@),
{
    let hash = ['#'];
    let sharp = ['s', 'h', 'a', 'r', 'p'];
    assert(hash@ =~= seq!['#']);
    assert(sharp@ =~= seq!['s', 'h', 'a', 'r', 'p']);
    contains_word(k, hash.as_slice()) || contains_word(k, sharp.as_slice())
}

/// Parse a key string to its root MIDI note (C4 = 60).
pub fn parse_key(key: &str) -> (r: u8)
    ensures
        r == spec_parse_key(key@),
{
    let k = chars_of(key);
    let base = key_base(&k);
    let flat = ['b'];
    assert(flat@ =~= seq!['b']);
    let ghost w = seq!['b'];
    assert(starts_folded(k@, w) <==> (k@.len() > 0 && fold(k@[0]) == 'b')) by {
        if k@.len() > 0 {
            assert(fold(k@[0int + 0int]) == fold(k@[0]));
        }
    }
    if key_is_sharp(&k) {
        base + 1
    } else if contains_word(&k, flat.as_slice()) && !(k.len() > 0 && folds_to(k[0], 'b')) {
        base - 1
    } else {
        base
    }
}


/// The chord roots of the I-V-vi-IV progression, one chord every two bars.
pub open spec fn spec_chord_root(root: u8, bar: nat) -> int {
    let idx = (bar / 2) % 4;
    if idx == 0 {
        root as int
    } else if idx == 1 {
        root + 7
    } else if idx == 2 {
        root + 9
    } else {
        root + 5
    }
}

/// Note on at `time`, note off one beat later.
pub open spec fn spec_bass_hit(time: int, note: u8) -> Seq<MidiEvent> {
    seq![
        MidiEvent { time: time as u32, event_type: MidiEventType::NoteOn { note, velocity: 80 } },
        MidiEvent { time: (time + 480) as u32, event_type: MidiEventType::NoteOff { note } },
    ]
}

/// The bass notes of one bar: on beats 1 and 3, where the bar has them.
pub open spec fn spec_bass_bar(root: u8, beats_per_bar: nat, bar: nat) -> Seq<MidiEvent> {
    let note = (spec_chord_root(root, bar) + 24) as u8;
    let start = bar * beats_per_bar;
    let first = if 0 < beats_per_bar { spec_bass_hit((start * 480) as int, note) } else { seq![] };
    let third = if 2 < beats_per_bar { spec_bass_hit(((start + 2) * 480) as int, note) } else { seq![] };
    first + third
}

/// The bass notes of bars `bar..bars`.
pub open spec fn spec_bass_bars(root: u8, beats_per_bar: nat, bar: nat, bars: nat) -> Seq<
    MidiEvent,
>
    decreases bars - bar,
{
    if bar >= bars {
        seq![]
    } else {
        spec_bass_bar(root, beats_per_bar, bar) + spec_bass_bars(
            root,
            beats_per_bar,
            bar + 1,
            bars,
        )
    }
}

/// The events of a bass track: the program change, then every bar.
pub open spec fn spec_bass_events(key: Seq<char>, beats_per_bar: nat, bars: nat) -> Seq<MidiEvent> {
    seq![
        MidiEvent {
            time: 0,
            event_type: MidiEventType::ProgramChange { program: 32 },
        },
    ] + spec_bass_bars(spec_parse_key(key), beats_per_bar, 0, bars)
}

/// Where in its bar the last bass note of a bar starts: beat 3 when the bar
/// has it, else beat 1.
pub open spec fn spec_last_offset(beats_per_bar: u32) -> nat {
    if beats_per_bar > 2 {
        2
    } else {
        0
    }
}

/// Every bass note of the program starts no later than `BASS_LAST_BEAT`.
pub open spec fn bass_fits(bars: u32, beats_per_bar: u32) -> bool {
    bars == 0 || (bars - 1) * beats_per_bar + spec_last_offset(beats_per_bar) <= BASS_LAST_BEAT
}

proof fn lemma_bar_start_bound(bar: u32, bars: u32, bpb: u32)
    requires
        bar < bars,
        bass_fits(bars, bpb),
    ensures
        bar * bpb <= BASS_LAST_BEAT,
{
    assert(bar * bpb <= (bars - 1) * bpb) by (nonlinear_arith)
        requires
            bar <= bars - 1,
    ;
}

proof fn lemma_bass_hit_paired(time: int, note: u8)
    requires
        0 <= time,
        time + 480 <= u32::MAX,
    ensures
        paired_notes(spec_bass_hit(time, note)),
{
    let h = spec_bass_hit(time, note);
    assert(h.subrange(2, 2) =~= seq![]);
    assert(paired_notes(h.subrange(2, 2)));
    assert(is_note_pair(h[0], h[1]));
}

/// Every bass note is a note on followed by its note off.
pub proof fn lemma_bass_bars_paired(root: u8, beats_per_bar: nat, bar: nat, bars: nat)
    requires
        bars == 0 || (bars - 1) * beats_per_bar <= BASS_LAST_BEAT,
    ensures
        paired_notes(spec_bass_bars(root, beats_per_bar, bar, bars)),
    decreases bars - bar,
{
    if bar < bars {
        let start = bar * beats_per_bar;
        assert(start * 480 + 3 * 480 <= (BASS_LAST_BEAT + 3) * 480) by (nonlinear_arith)
            requires
                bar < bars,
                (bars - 1) * beats_per_bar <= BASS_LAST_BEAT,
                start == bar * beats_per_bar,
        ;
        let note = (spec_chord_root(root, bar) + 24) as u8;
        let first = if 0 < beats_per_bar { spec_bass_hit((start * 480) as int, note) } else { seq![] };
        let third = if 2 < beats_per_bar { spec_bass_hit(((start + 2) * 480) as int, note) } else { seq![] };
        lemma_bass_hit_paired((start * 480) as int, note);
        lemma_bass_hit_paired(((start + 2) * 480) as int, note);
        assert(paired_notes(seq![]));
        lemma_paired_concat(first, third);
        lemma_bass_bars_paired(root, beats_per_bar, bar + 1, bars);
        lemma_paired_concat(first + third, spec_bass_bars(root, beats_per_bar, bar + 1, bars));
    }
}

/// The bass note of bar `bar` in the I-V-vi-IV progression: the key's root
/// two octaves up, plus 0, 7, 9 or 5 semitones for the chord, which changes
/// every two bars.
pub open spec fn progression_note(root: u8, bar: nat) -> int {
    let chord = (bar / 2) % 4;
    root + 24 + if chord == 0 {
        0int
    } else if chord == 1 {
        7int
    } else if chord == 2 {
        9int
    } else {
        5int
    }
}

/// A bass note on: on beat 1 or 3 (offset 0 or 2, where the bar has it) of
/// a bar from `bar` to `bars`, with that bar's progression note, velocity 80.
pub open spec fn is_progression_hit(e: MidiEvent, root: u8, bpb: nat, bar: nat, bars: nat) -> bool {
    exists|b: nat, off: nat|
        #![trigger progression_note(root, b), beat_tick(bpb, b, off)]
        bar <= b < bars && (off == 0 || off == 2) && off < bpb && e.time == beat_tick(bpb, b, off)
            && e.event_type == (MidiEventType::NoteOn {
            note: progression_note(root, b) as u8,
            velocity: 80,
        })
}

/// The tick of beat offset `off` in bar `b`.
pub open spec fn beat_tick(bpb: nat, b: nat, off: nat) -> nat {
    (b * bpb + off) * 480
}

/// The note on of bar `b` at beat offset `off`.
pub open spec fn progression_hit(root: u8, bpb: nat, b: nat, off: nat) -> MidiEvent {
    MidiEvent {
        time: beat_tick(bpb, b, off) as u32,
        event_type: MidiEventType::NoteOn { note: progression_note(root, b) as u8, velocity: 80 },
    }
}

proof fn lemma_bass_bar_progression(root: u8, bpb: nat, bar: nat, bars: nat)
    requires
        root <= 72,
        bar < bars,
        (bars - 1) * bpb <= BASS_LAST_BEAT,
    ensures
        forall|i: int|
            0 <= i < spec_bass_bar(root, bpb, bar).len() ==> ((#[trigger] spec_bass_bar(
                root,
                bpb,
                bar,
            )[i]).event_type is NoteOn ==> is_progression_hit(
                spec_bass_bar(root, bpb, bar)[i],
                root,
                bpb,
                bar,
                bars,
            )),
        0 < bpb ==> spec_bass_bar(root, bpb, bar).contains(progression_hit(root, bpb, bar, 0)),
        2 < bpb ==> spec_bass_bar(root, bpb, bar).contains(progression_hit(root, bpb, bar, 2)),
{
    let start = bar * bpb;
    assert(start <= BASS_LAST_BEAT) by (nonlinear_arith)
        requires
            bar < bars,
            (bars - 1) * bpb <= BASS_LAST_BEAT,
            start == bar * bpb,
    ;
    let note = (spec_chord_root(root, bar) + 24) as u8;
    assert(note == progression_note(root, bar) as u8);
    let h0 = spec_bass_hit((start * 480) as int, note);
    let h2 = spec_bass_hit(((start + 2) * 480) as int, note);
    let first = if 0 < bpb { h0 } else { seq![] };
    let third = if 2 < bpb { h2 } else { seq![] };
    let all = spec_bass_bar(root, bpb, bar);
    assert(all == first + third);
    assert(h0[0] == progression_hit(root, bpb, bar, 0));
    assert(h2[0] == progression_hit(root, bpb, bar, 2));
    assert forall|i: int| 0 <= i < all.len() && (#[trigger] all[i]).event_type is NoteOn
        implies is_progression_hit(all[i], root, bpb, bar, bars) by {
        if i < first.len() {
            assert(all[i] == first[i]);
            assert(i == 0);
            assert(all[i].time == beat_tick(bpb, bar, 0));
            assert(progression_note(root, bar) == progression_note(root, bar));
        } else {
            assert(all[i] == third[i - first.len()]);
            assert(i - first.len() == 0);
            assert(all[i].time == beat_tick(bpb, bar, 2));
            assert(progression_note(root, bar) == progression_note(root, bar));
        }
    }
    if 0 < bpb {
        assert(all[0] == progression_hit(root, bpb, bar, 0));
    }
    if 2 < bpb {
        assert(all[first.len() as int] == progression_hit(root, bpb, bar, 2));
    }
}

/// The bass plays the I-V-vi-IV progression: every note on of bars `bar`
/// to `bars` falls on beat 1 or 3 of some bar and plays that bar's chord
/// root (the key's root two octaves up plus 0, 7, 9 or 5 semitones, a chord
/// every two bars); and every beat 1, and every beat 3 of a bar that has
/// one, holds that note on.
pub proof fn lemma_bass_progression(root: u8, bpb: nat, bar: nat, bars: nat)
    requires
        root <= 72,
        bars == 0 || (bars - 1) * bpb <= BASS_LAST_BEAT,
    ensures
        forall|i: int|
            0 <= i < spec_bass_bars(root, bpb, bar, bars).len() ==> ((
            #[trigger] spec_bass_bars(root, bpb, bar, bars)[i]).event_type is NoteOn
                ==> is_progression_hit(spec_bass_bars(root, bpb, bar, bars)[i], root, bpb, bar, bars)),
        forall|b: nat, off: nat|
            bar <= b < bars && (off == 0 || off == 2) && off < bpb ==> spec_bass_bars(
                root,
                bpb,
                bar,
                bars,
            ).contains(#[trigger] progression_hit(root, bpb, b, off)),
    decreases bars - bar,
{
    if bar < bars {
        lemma_bass_bar_progression(root, bpb, bar, bars);
        lemma_bass_progression(root, bpb, bar + 1, bars);
        let head = spec_bass_bar(root, bpb, bar);
        let rest = spec_bass_bars(root, bpb, bar + 1, bars);
        let all = spec_bass_bars(root, bpb, bar, bars);
        assert(all == head + rest);
        assert forall|i: int| 0 <= i < all.len() && (#[trigger] all[i]).event_type is NoteOn
            implies is_progression_hit(all[i], root, bpb, bar, bars) by {
            if i < head.len() {
                assert(all[i] == head[i]);
                assert(is_progression_hit(head[i], root, bpb, bar, bars));
            } else {
                assert(all[i] == rest[i - head.len()]);
                assert(is_progression_hit(rest[i - head.len()], root, bpb, bar + 1, bars));
                let (b, off) = choose|b: nat, off: nat|
                    #![trigger progression_note(root, b), beat_tick(bpb, b, off)]
                    bar + 1 <= b < bars && (off == 0 || off == 2) && off < bpb && all[i].time
                        == beat_tick(bpb, b, off) && all[i].event_type == (MidiEventType::NoteOn {
                        note: progression_note(root, b) as u8,
                        velocity: 80,
                    });
                assert(progression_note(root, b) == progression_note(root, b));
                assert(all[i].time == beat_tick(bpb, b, off));
            }
        }
        assert forall|b: nat, off: nat|
            bar <= b < bars && (off == 0 || off == 2) && off < bpb implies all.contains(
                #[trigger] progression_hit(root, bpb, b, off),
            ) by {
            let e = progression_hit(root, bpb, b, off);
            if b == bar {
                assert(head.contains(e));
                let k = choose|k: int| 0 <= k < head.len() && head[k] == e;
                assert(all[k] == e);
            } else {
                assert(rest.contains(e));
                let k = choose|k: int| 0 <= k < rest.len() && rest[k] == e;
                assert(all[head.len() + k] == e);
            }
        }
    }
}

/// A bass track plays the key's I-V-vi-IV progression: after its program
/// change, every note on falls on beat 1 or 3 of a bar and plays that bar's
/// chord root two octaves above the key's root (0, 7, 9 or 5 semitones
/// above it, a chord every two bars), and every such beat holds that note.
pub proof fn lemma_bass_events_progression(key: Seq<char>, bpb: nat, bars: nat)
    requires
        bars == 0 || (bars - 1) * bpb <= BASS_LAST_BEAT,
    ensures
        spec_bass_events(key, bpb, bars)[0].event_type == (MidiEventType::ProgramChange {
            program: 32,
        }),
        forall|i: int|
            1 <= i < spec_bass_events(key, bpb, bars).len() && (#[trigger] spec_bass_events(
                key,
                bpb,
                bars,
            )[i]).event_type is NoteOn ==> is_progression_hit(
                spec_bass_events(key, bpb, bars)[i],
                spec_parse_key(key),
                bpb,
                0,
                bars,
            ),
        forall|b: nat, off: nat|
            b < bars && (off == 0 || off == 2) && off < bpb ==> spec_bass_events(
                key,
                bpb,
                bars,
            ).contains(#[trigger] progression_hit(spec_parse_key(key), bpb, b, off)),
{
    let root = spec_parse_key(key);
    lemma_root_bound(key);
    lemma_bass_progression(root, bpb, 0, bars);
    let bars_ev = spec_bass_bars(root, bpb, 0, bars);
    let all = spec_bass_events(key, bpb, bars);
    assert forall|i: int| 1 <= i < all.len() && (#[trigger] all[i]).event_type is NoteOn implies
        is_progression_hit(all[i], root, bpb, 0, bars) by {
        assert(all[i] == bars_ev[i - 1]);
    }
    assert forall|b: nat, off: nat| b < bars && (off == 0 || off == 2) && off < bpb implies all.contains(
        #[trigger] progression_hit(root, bpb, b, off),
    ) by {
        let e = progression_hit(root, bpb, b, off);
        assert(bars_ev.contains(e));
        let k = choose|k: int| 0 <= k < bars_ev.len() && bars_ev[k] == e;
        assert(all[k + 1] == e);
    }
}

/// The harmony's root note is at most 72 (B and a sharp).
pub proof fn lemma_root_bound(k: Seq<char>)
    ensures
        spec_parse_key(k) <= 72,
{
}

proof fn lemma_bass_hit_valid(time: int, note: u8)
    requires
        note <= 127,
    ensures
        events_data_valid(spec_bass_hit(time, note)),
{
    let h = spec_bass_hit(time, note);
    assert(event_data_valid(h[0]) && event_data_valid(h[1]));
}

/// Every bass note is a MIDI note: the chord root, at most 81, two octaves
/// up is at most 105.
pub proof fn lemma_bass_bars_valid(root: u8, beats_per_bar: nat, bar: nat, bars: nat)
    requires
        root <= 72,
    ensures
        events_data_valid(spec_bass_bars(root, beats_per_bar, bar, bars)),
    decreases bars - bar,
{
    if bar < bars {
        let start = bar * beats_per_bar;
        let note = (spec_chord_root(root, bar) + 24) as u8;
        assert(note <= 105);
        let first = if 0 < beats_per_bar { spec_bass_hit((start * 480) as int, note) } else { seq![] };
        let third = if 2 < beats_per_bar { spec_bass_hit(((start + 2) * 480) as int, note) } else { seq![] };
        lemma_bass_hit_valid((start * 480) as int, note);
        lemma_bass_hit_valid(((start + 2) * 480) as int, note);
        assert(events_data_valid(seq![]));
        lemma_data_valid_concat(first, third);
        lemma_bass_bars_valid(root, beats_per_bar, bar + 1, bars);
        lemma_data_valid_concat(first + third, spec_bass_bars(root, beats_per_bar, bar + 1, bars));
    }
}

/// A bass track's events are all MIDI data bytes.
pub proof fn lemma_bass_events_valid(key: Seq<char>, beats_per_bar: nat, bars: nat)
    ensures
        events_data_valid(spec_bass_events(key, beats_per_bar, bars)),
{
    lemma_root_bound(key);
    lemma_bass_bars_valid(spec_parse_key(key), beats_per_bar, 0, bars);
    let pc = seq![MidiEvent { time: 0, event_type: MidiEventType::ProgramChange { program: 32 } }];
    assert(event_data_valid(pc[0]));
    lemma_data_valid_concat(pc, spec_bass_bars(spec_parse_key(key), beats_per_bar, 0, bars));
    assert(spec_bass_events(key, beats_per_bar, bars) =~= pc + spec_bass_bars(
        spec_parse_key(key),
        beats_per_bar,
        0,
        bars,
    ));
}

/// Generate a bass track following the I-V-vi-IV chord progression: the
/// chord's root raised by two octaves from the key's root note, on beats 1
/// and 3 of each bar, one beat long, velocity 80. The generator is not drawn
/// from.
pub fn generate_bass_track(program: &TuneProgram, rng: &mut StdRng, channel: u8) -> (r: Result<
    MidiTrack,
    Error,
>)
    requires
        bass_fits(program.duration_bars, program.time_signature.0),
    ensures
        r matches Ok(track) && track@ == (TrackView {
            name: "Bass"@,
            instrument: Instrument::Bass,
            channel,
            events: spec_bass_events(
                program.key@,
                program.time_signature.0 as nat,
                program.duration_bars as nat,
            ),
        }),
        rng_stream(*final(rng)) == rng_stream(*old(rng)),
        r matches Ok(track) && events_data_valid(track.events@),
        r matches Ok(track) && forall|i: int|
            1 <= i < track.events@.len() && (#[trigger] track.events@[i]).event_type is NoteOn
                ==> is_progression_hit(
                track.events@[i],
                spec_parse_key(program.key@),
                program.time_signature.0 as nat,
                0,
                program.duration_bars as nat,
            ),
        r matches Ok(track) && forall|b: nat, off: nat|
            b < program.duration_bars && (off == 0 || off == 2) && off < program.time_signature.0
                ==> track.events@.contains(
                #[trigger] progression_hit(
                    spec_parse_key(program.key@),
                    program.time_signature.0 as nat,
                    b,
                    off,
                ),
            ),
{
    let mut events: Vec<MidiEvent> = Vec::new();
    events.push(
        MidiEvent {
            time: 0,
            event_type: MidiEventType::ProgramChange { program: Instrument::Bass.midi_program() },
        },
    );
    let root = parse_key(program.key.as_str());
    let bpb = program.time_signature.0;
    let bars = program.duration_bars;
    let ghost full = spec_bass_events(program.key@, bpb as nat, bars as nat);
    let mut bar: u32 = 0;
    while bar < bars
        invariant
            bar <= bars,
            bars == program.duration_bars,
            bpb == program.time_signature.0,
            root == spec_parse_key(program.key@),
            bass_fits(bars, bpb),
            full == spec_bass_events(program.key@, bpb as nat, bars as nat),
            events@ + spec_bass_bars(root, bpb as nat, bar as nat, bars as nat) == full,
        decreases bars - bar,
    {
        proof {
            lemma_bar_start_bound(bar, bars, bpb);
        }
        let idx = (bar / 2) % 4;
        let chord = if idx == 0 {
            root
        } else if idx == 1 {
            root + 7
        } else if idx == 2 {
            root + 9
        } else {
            root + 5
        };
        let note = chord + 24;
        let start = bar * bpb;
        let ghost before = events@;
        if 0 < bpb {
            let time = start * TICKS_PER_BEAT;
            events.push(
                MidiEvent { time, event_type: MidiEventType::NoteOn { note, velocity: 80 } },
            );
            events.push(
                MidiEvent { time: time + TICKS_PER_BEAT, event_type: MidiEventType::NoteOff { note } },
            );
        }
        if 2 < bpb {
            let time = (start + 2) * TICKS_PER_BEAT;
            events.push(
                MidiEvent { time, event_type: MidiEventType::NoteOn { note, velocity: 80 } },
            );
            events.push(
                MidiEvent { time: time + TICKS_PER_BEAT, event_type: MidiEventType::NoteOff { note } },
            );
        }
        assert(events@ =~= before + spec_bass_bar(root, bpb as nat, bar as nat));
        assert(spec_bass_bars(root, bpb as nat, bar as nat, bars as nat) =~= spec_bass_bar(
            root,
            bpb as nat,
            bar as nat,
        ) + spec_bass_bars(root, bpb as nat, (bar + 1) as nat, bars as nat));
        assert(events@ + spec_bass_bars(root, bpb as nat, (bar + 1) as nat, bars as nat) =~= full);
        bar = bar + 1;
    }
    assert(events@ =~= full);
    proof {
        lemma_bass_events_valid(
            program.key@,
            program.time_signature.0 as nat,
            program.duration_bars as nat,
        );
        if bars > 0 {
            assert((bars - 1) * bpb <= (bars - 1) * bpb + spec_last_offset(bpb));
        }
        lemma_bass_events_progression(
            program.key@,
            program.time_signature.0 as nat,
            program.duration_bars as nat,
        );
    }
    Ok(MidiTrack { name: "Bass".to_owned(), instrument: Instrument::Bass, channel, events })
}

} // verus!
