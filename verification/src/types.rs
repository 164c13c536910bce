//! Core data structures: instruments, MIDI events, tracks and tune programs.

use vstd::prelude::*;

verus! {

/// Instrument types.
#[derive(Debug, Clone, Copy, PartialEq, Eq, Hash, Structural)]
pub enum Instrument {
    Piano,
    Bass,
    Drums,
    Guitar,
    Synth,
    Strings,
    Brass,
    Woodwind,
    Pad,
}

/// The General MIDI program number of each instrument.
pub open spec fn spec_midi_program(i: Instrument) -> u8 {
    match i {
        Instrument::Piano => 0,
        Instrument::Bass => 32,
        Instrument::Drums => 0,
        Instrument::Guitar => 24,
        Instrument::Synth => 80,
        Instrument::Strings => 48,
        Instrument::Brass => 56,
        Instrument::Woodwind => 71,
        Instrument::Pad => 88,
    }
}

/// The name of each instrument, as written by `{:?}`.
pub open spec fn spec_instrument_name(i: Instrument) -> Seq<char> {
    match i {
        Instrument::Piano => "Piano"@,
        Instrument::Bass => "Bass"@,
        Instrument::Drums => "Drums"@,
        Instrument::Guitar => "Guitar"@,
        Instrument::Synth => "Synth"@,
        Instrument::Strings => "Strings"@,
        Instrument::Brass => "Brass"@,
        Instrument::Woodwind => "Woodwind"@,
        Instrument::Pad => "Pad"@,
    }
}

impl Instrument {
    /// The instrument's name.
    pub fn name(&self) -> (s: String)
        ensures
            s@ == spec_instrument_name(*self),
    {
        match self {
            Instrument::Piano => "Piano".to_owned(),
            Instrument::Bass => "Bass".to_owned(),
            Instrument::Drums => "Drums".to_owned(),
            Instrument::Guitar => "Guitar".to_owned(),
            Instrument::Synth => "Synth".to_owned(),
            Instrument::Strings => "Strings".to_owned(),
            Instrument::Brass => "Brass".to_owned(),
            Instrument::Woodwind => "Woodwind".to_owned(),
            Instrument::Pad => "Pad".to_owned(),
        }
    }

    /// Get the MIDI program number for this instrument.
    pub fn midi_program(&self) -> (p: u8)
        ensures
            p == spec_midi_program(*self),
    {
        match self {
            Instrument::Piano => 0,  // Acoustic Grand Piano
            Instrument::Bass => 32,  // Acoustic Bass
            Instrument::Drums => 0,  // Drums play on channel 10
            Instrument::Guitar => 24,  // Acoustic Guitar
            Instrument::Synth => 80,  // Square Lead
            Instrument::Strings => 48,  // String Ensemble
            Instrument::Brass => 56,  // Trumpet
            Instrument::Woodwind => 71,  // Clarinet
            Instrument::Pad => 88,  // Pad (New Age)
        }
    }

    /// Check whether this is a drum instrument (played on channel 10).
    pub fn is_drums(&self) -> (b: bool)
        ensures
            b <==> *self == Instrument::Drums,
    {
        match self {
            Instrument::Drums => true,
            _ => false,
        }
    }
}


/// MIDI event types.
#[derive(Debug, Clone, Copy, PartialEq, Eq, Structural)]
pub enum MidiEventType {
    /// Note on (note, velocity).
    NoteOn { note: u8, velocity: u8 },
    /// Note off (note).
    NoteOff { note: u8 },
    /// Program change (program).
    ProgramChange { program: u8 },
    /// Control change (controller, value).
    ControlChange { controller: u8, value: u8 },
}

/// A MIDI event.
#[derive(Debug, Clone, Copy, PartialEq, Eq, Structural)]
pub struct MidiEvent {
    /// Time in ticks from the start.
    pub time: u32,
    /// Event type.
    pub event_type: MidiEventType,
}

/// The values a MIDI track holds.
pub struct TrackView {
    pub name: Seq<char>,
    pub instrument: Instrument,
    pub channel: u8,
    pub events: Seq<MidiEvent>,
}

impl View for MidiTrack {
    type V = TrackView;

    open spec fn view(&self) -> TrackView {
        TrackView {
            name: self.name@,
            instrument: self.instrument,
            channel: self.channel,
            events: self.events@,
        }
    }
}

/// The values of a list of tracks.
pub open spec fn track_views(tracks: Seq<MidiTrack>) -> Seq<TrackView> {
    tracks.map_values(|t: MidiTrack| t@)
}

/// A MIDI track for one instrument.
#[derive(Debug)]
pub struct MidiTrack {
    /// Track name.
    pub name: String,
    /// Instrument.
    pub instrument: Instrument,
    /// MIDI channel (0-15; drums use channel 10, index 9).
    pub channel: u8,
    /// MIDI events.
    pub events: Vec<MidiEvent>,
}

/// Copy a list of MIDI events.
fn copy_events(v: &Vec<MidiEvent>) -> (r: Vec<MidiEvent>)
    ensures
        r@ == v@,
{
    let mut r: Vec<MidiEvent> = Vec::new();
    let mut i: usize = 0;
    while i < v.len()
        invariant
            i <= v.len(),
            r@ == v@.subrange(0, i as int),
        decreases v.len() - i,
    {
        r.push(v[i]);
        i = i + 1;
    }
    r
}

impl Clone for MidiTrack {
    fn clone(&self) -> (r: Self)
        ensures
            r@ == self@,
    {
        MidiTrack {
            name: self.name.clone(),
            instrument: self.instrument,
            channel: self.channel,
            events: copy_events(&self.events),
        }
    }
}

/// A note on followed by the note off of the same note, strictly later.
pub open spec fn is_note_pair(on: MidiEvent, off: MidiEvent) -> bool {
    on.time < off.time && match on.event_type {
        MidiEventType::NoteOn { note, .. } => off.event_type == (MidiEventType::NoteOff { note }),
        _ => false,
    }
}

/// The event's data bytes are MIDI data bytes: notes, velocities,
/// programs, controllers and values all at most 127.
pub open spec fn event_data_valid(e: MidiEvent) -> bool {
    match e.event_type {
        MidiEventType::NoteOn { note, velocity } => note <= 127 && velocity <= 127,
        MidiEventType::NoteOff { note } => note <= 127,
        MidiEventType::ProgramChange { program } => program <= 127,
        MidiEventType::ControlChange { controller, value } => controller <= 127 && value <= 127,
    }
}

/// Every event's data bytes are MIDI data bytes.
pub open spec fn events_data_valid(events: Seq<MidiEvent>) -> bool {
    forall|i: int| 0 <= i < events.len() ==> event_data_valid(#[trigger] events[i])
}

/// Events with MIDI data bytes followed by events with MIDI data bytes.
pub proof fn lemma_data_valid_concat(a: Seq<MidiEvent>, b: Seq<MidiEvent>)
    requires
        events_data_valid(a),
        events_data_valid(b),
    ensures
        events_data_valid(a + b),
{
    assert forall|i: int| 0 <= i < (a + b).len() implies event_data_valid(#[trigger] (a + b)[i]) by {
        if i < a.len() {
            assert((a + b)[i] == a[i]);
        } else {
            assert((a + b)[i] == b[i - a.len()]);
        }
    }
}

/// Events that come as note pairs, one pair after another.
pub open spec fn paired_notes(events: Seq<MidiEvent>) -> bool
    decreases events.len(),
{
    if events.len() == 0 {
        true
    } else {
        &&& events.len() >= 2
        &&& is_note_pair(events[0], events[1])
        &&& paired_notes(events.subrange(2, events.len() as int))
    }
}

/// Note pairs followed by note pairs are note pairs.
pub proof fn lemma_paired_concat(a: Seq<MidiEvent>, b: Seq<MidiEvent>)
    requires
        paired_notes(a),
        paired_notes(b),
    ensures
        paired_notes(a + b),
    decreases a.len(),
{
    if a.len() == 0 {
        assert(a + b =~= b);
    } else {
        lemma_paired_concat(a.subrange(2, a.len() as int), b);
        assert((a + b).subrange(2, (a + b).len() as int) =~= a.subrange(2, a.len() as int) + b);
    }
}

/// Export format.
#[derive(Debug, Clone, Copy, PartialEq, Eq, Structural)]
pub enum ExportFormat {
    /// MIDI file.
    Midi,
    /// WAV audio stems (one file per instrument).
    Stems,
    /// Mixed WAV audio (single file).
    Mix,
    /// GarageBand .band bundle.
    GarageBand,
}


/// Version of the TuneProgram schema.
pub const TUNE_PROGRAM_VERSION: u32 = 1;

/// A complete tune program describing the musical parameters.
///
/// The energy level (0.0 = calm, 1.0 = energetic) reaches the composition
/// logic only as `base_velocity`, the note-on velocity floor of the melodic
/// parts (energy 0.0 gives 40, energy 0.5 gives 80, energy 1.0 gives 120).
pub struct TuneProgram {
    /// Schema version.
    pub version: u32,
    /// Brief description or prompt.
    pub description: String,
    /// Musical style (e.g. "pop", "jazz", "electronic").
    pub style: String,
    /// Tempo in BPM.
    pub tempo: u32,
    /// Time signature (numerator, denominator).
    pub time_signature: (u32, u32),
    /// Key signature and mode, e.g. "C major", "F# minor".
    pub key: String,
    /// Velocity floor of melodic notes, derived from the energy level.
    pub base_velocity: u8,
    /// Duration in bars.
    pub duration_bars: u32,
    /// Optional seed for deterministic generation.
    pub seed: Option<u64>,
    /// Instrumentation, one track per entry.
    pub instruments: Vec<Instrument>,
}

/// The values a tune program holds.
pub struct ProgramView {
    pub version: u32,
    pub description: Seq<char>,
    pub style: Seq<char>,
    pub tempo: u32,
    pub time_signature: (u32, u32),
    pub key: Seq<char>,
    pub base_velocity: u8,
    pub duration_bars: u32,
    pub seed: Option<u64>,
    pub instruments: Seq<Instrument>,
}

impl View for TuneProgram {
    type V = ProgramView;

    open spec fn view(&self) -> ProgramView {
        ProgramView {
            version: self.version,
            description: self.description@,
            style: self.style@,
            tempo: self.tempo,
            time_signature: self.time_signature,
            key: self.key@,
            base_velocity: self.base_velocity,
            duration_bars: self.duration_bars,
            seed: self.seed,
            instruments: self.instruments@,
        }
    }
}

/// The number of beats a program lasts: bars times beats per bar.
pub open spec fn total_beats(p: ProgramView) -> nat {
    (p.duration_bars * p.time_signature.0) as nat
}

/// Copy a list of instruments.
fn copy_instruments(v: &Vec<Instrument>) -> (r: Vec<Instrument>)
    ensures
        r@ == v@,
{
    let mut r: Vec<Instrument> = Vec::new();
    let mut i: usize = 0;
    while i < v.len()
        invariant
            i <= v.len(),
            r@ == v@.subrange(0, i as int),
        decreases v.len() - i,
    {
        r.push(v[i]);
        i = i + 1;
    }
    r
}

impl Clone for TuneProgram {
    fn clone(&self) -> (r: Self)
        ensures
            r@ == self@,
    {
        TuneProgram {
            version: self.version,
            description: self.description.clone(),
            style: self.style.clone(),
            tempo: self.tempo,
            time_signature: self.time_signature,
            key: self.key.clone(),
            base_velocity: self.base_velocity,
            duration_bars: self.duration_bars,
            seed: self.seed,
            instruments: copy_instruments(&self.instruments),
        }
    }
}

/// Default tempo in BPM.
pub fn default_tempo() -> (t: u32)
    ensures
        t == 120,
{
    120
}

/// Default time signature, 4/4.
pub fn default_time_signature() -> (ts: (u32, u32))
    ensures
        ts == (4u32, 4u32),
{
    (4, 4)
}

/// Default key, "C major".
pub fn default_key() -> (k: String)
    ensures
        k@ == "C major"@,
{
    "C major".to_owned()
}

/// Default duration in bars.
pub fn default_duration() -> (d: u32)
    ensures
        d == 8,
{
    8
}

/// Velocity floor for the default energy level 0.5.
pub fn default_base_velocity() -> (v: u8)
    ensures
        v == 80,
{
    80
}

impl Default for TuneProgram {
    fn default() -> (p: Self)
        ensures
            p@.version == TUNE_PROGRAM_VERSION,
            p.description@ == Seq::<char>::empty(),
            p.style@ == "pop"@,
            p.tempo == 120,
            p.time_signature == (4u32, 4u32),
            p.key@ == "C major"@,
            p.base_velocity == 80,
            p.duration_bars == 8,
            p.seed is None,
            p.instruments@ == seq![Instrument::Piano, Instrument::Bass, Instrument::Drums],
    {
        let mut instruments: Vec<Instrument> = Vec::new();
        instruments.push(Instrument::Piano);
        instruments.push(Instrument::Bass);
        instruments.push(Instrument::Drums);
        TuneProgram {
            version: TUNE_PROGRAM_VERSION,
            description: String::new(),
            style: "pop".to_owned(),
            tempo: default_tempo(),
            time_signature: default_time_signature(),
            key: default_key(),
            base_velocity: default_base_velocity(),
            duration_bars: default_duration(),
            seed: None,
            instruments,
        }
    }
}

/// Default sample rate in Hz.
pub fn default_sample_rate() -> (r: u32)
    ensures
        r == 44100,
{
    44100
}

/// Default number of audio channels.
pub fn default_channels() -> (c: u16)
    ensures
        c == 2,
{
    2
}

/// A generated tune with MIDI data.
pub struct GeneratedTune {
    /// The program used to generate this tune.
    pub program: TuneProgram,
    /// MIDI tracks (one per instrument).
    pub tracks: Vec<MidiTrack>,
    /// The seed that was used (either provided or drawn).
    pub seed: u64,
}

} // verus!
