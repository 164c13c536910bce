use tunesmith::composition::CompositionEngine;
use tunesmith::export::midi::{
    midi_bytes, midi_encodable, sort_by_time, track_fits, write_header, write_tempo_track,
    write_track, write_vlq,
};
use tunesmith::export::{
    export_plan, parse_export_format, stem_file_name, stem_file_names, ExportTarget,
};
use tunesmith::{
    Error, ExportFormat, GeneratedTune, Instrument, MidiEvent, MidiEventType, MidiTrack,
    TuneProgram,
};

fn bass_track() -> MidiTrack {
    MidiTrack {
        name: "Bass".to_string(),
        instrument: Instrument::Bass,
        channel: 1,
        events: vec![
            MidiEvent {
                time: 480,
                event_type: MidiEventType::NoteOff { note: 36 },
            },
            MidiEvent {
                time: 0,
                event_type: MidiEventType::NoteOn {
                    note: 36,
                    velocity: 100,
                },
            },
            MidiEvent {
                time: 0,
                event_type: MidiEventType::ProgramChange { program: 33 },
            },
        ],
    }
}

fn small_tune() -> GeneratedTune {
    GeneratedTune {
        program: TuneProgram {
            tempo: 120,
            ..Default::default()
        },
        tracks: vec![bass_track()],
        seed: 1,
    }
}

const TRACK_CHUNK: [u8; 32] = [
    b'M', b'T', b'r', b'k', 0, 0, 0, 24, // chunk header
    0x00, 0xFF, 0x03, 4, b'B', b'a', b's', b's', // track name
    0x00, 0x91, 36, 100, // note on at 0
    0x00, 0xC1, 33, // program change at 0
    0x83, 0x60, 0x81, 36, 64, // note off 480 ticks later
    0x00, 0xFF, 0x2F, 0x00, // end of track
];

#[test]
fn export_plan_for_each_format() {
    assert!(matches!(
        export_plan(ExportFormat::Midi, false),
        Ok(ExportTarget::MidiFile)
    ));
    assert!(matches!(
        export_plan(ExportFormat::GarageBand, false),
        Ok(ExportTarget::GarageBandBundle)
    ));
    assert!(matches!(
        export_plan(ExportFormat::Stems, true),
        Ok(ExportTarget::StemFiles)
    ));
    assert!(matches!(
        export_plan(ExportFormat::Mix, true),
        Ok(ExportTarget::WavFile)
    ));
}

#[test]
fn export_plan_needs_audio_for_stems_and_mix() {
    match export_plan(ExportFormat::Stems, false) {
        Err(Error::Export(m)) => assert_eq!(m, "Audio required for stems export"),
        _ => panic!("stems without audio must fail"),
    }
    match export_plan(ExportFormat::Mix, false) {
        Err(Error::Export(m)) => assert_eq!(m, "Audio required for mix export"),
        _ => panic!("mix without audio must fail"),
    }
}

#[test]
fn stem_names_of_single_stems() {
    assert_eq!(stem_file_name("Piano"), "piano.wav");
    assert_eq!(stem_file_name("Bass"), "bass.wav");
    assert_eq!(stem_file_name("Lead Piano"), "lead_piano.wav");
    assert_eq!(stem_file_name("ÉCHO Pad"), "écho_pad.wav");
}

#[test]
fn export_format_names_are_exact() {
    assert_eq!(parse_export_format("midi"), Some(ExportFormat::Midi));
    assert_eq!(parse_export_format("stems"), Some(ExportFormat::Stems));
    assert_eq!(parse_export_format("mix"), Some(ExportFormat::Mix));
    assert_eq!(parse_export_format("garageband"), Some(ExportFormat::GarageBand));
    assert_eq!(parse_export_format("MIDI"), None);
    assert_eq!(parse_export_format("wav"), None);
}

#[test]
fn vlq_edge_values() {
    let mut data = Vec::new();
    write_vlq(&mut data, 0x3FFF);
    assert_eq!(data, vec![0xFF, 0x7F]);
    data.clear();
    write_vlq(&mut data, 0x4000);
    assert_eq!(data, vec![0x81, 0x80, 0x00]);
    data.clear();
    write_vlq(&mut data, 0x0FFF_FFFF);
    assert_eq!(data, vec![0xFF, 0xFF, 0xFF, 0x7F]);
    data.clear();
    write_vlq(&mut data, 480);
    assert_eq!(data, vec![0x83, 0x60]);
}

#[test]
fn header_bytes() {
    let mut data = vec![7];
    assert!(write_header(&mut data, 3, 480).is_ok());
    assert_eq!(data, vec![7, b'M', b'T', b'h', b'd', 0, 0, 0, 6, 0, 1, 0, 4, 0x01, 0xE0]);
}

#[test]
fn tempo_track_bytes() {
    let mut data = Vec::new();
    assert!(write_tempo_track(&mut data, 120).is_ok());
    assert_eq!(
        data,
        vec![
            b'M', b'T', b'r', b'k', 0, 0, 0, 19, 0x00, 0xFF, 0x58, 0x04, 4, 2, 24, 8, 0x00, 0xFF,
            0x51, 0x03, 0x07, 0xA1, 0x20, 0x00, 0xFF, 0x2F, 0x00
        ]
    );
}

#[test]
fn sorting_keeps_order_of_equal_times() {
    let sorted = sort_by_time(&bass_track().events);
    let times: Vec<u32> = sorted.iter().map(|e| e.time).collect();
    assert_eq!(times, vec![0, 0, 480]);
    assert!(matches!(sorted[0].event_type, MidiEventType::NoteOn { .. }));
    assert!(matches!(sorted[1].event_type, MidiEventType::ProgramChange { .. }));
}

#[test]
fn track_bytes() {
    let track = bass_track();
    assert!(track_fits(&track));
    let mut data = Vec::new();
    assert!(write_track(&mut data, &track).is_ok());
    assert_eq!(data, TRACK_CHUNK.to_vec());
}

#[test]
fn whole_midi_file() {
    let tune = small_tune();
    assert!(midi_encodable(&tune));
    let data = midi_bytes(&tune);
    let mut expected = vec![b'M', b'T', b'h', b'd', 0, 0, 0, 6, 0, 1, 0, 2, 0x01, 0xE0];
    let mut tempo = Vec::new();
    let _ = write_tempo_track(&mut tempo, 120);
    expected.extend(tempo);
    expected.extend(TRACK_CHUNK);
    assert_eq!(data, expected);
}

#[test]
fn tune_without_tempo_is_not_encodable() {
    let mut tune = small_tune();
    tune.program.tempo = 0;
    assert!(!midi_encodable(&tune));
}

#[test]
fn track_with_huge_gap_is_not_encodable() {
    let mut track = bass_track();
    track.events.push(MidiEvent {
        time: 0x1000_0000 + 480,
        event_type: MidiEventType::NoteOff { note: 40 },
    });
    assert!(!track_fits(&track));
}

#[test]
fn generated_tune_is_a_midi_file() {
    let engine = CompositionEngine::new();
    let program = TuneProgram {
        seed: Some(42),
        duration_bars: 2,
        ..Default::default()
    };
    let tune = engine.generate(&program).unwrap();
    assert!(midi_encodable(&tune));
    let data = midi_bytes(&tune);
    assert_eq!(&data[0..4], b"MThd");
    let tracks = tune.tracks.len() as u16 + 1;
    assert_eq!(&data[10..12], &tracks.to_be_bytes());
}

#[test]
fn one_stem_file_per_track() {
    let mut lead = bass_track();
    lead.name = "Lead Synth".to_string();
    let tracks = vec![bass_track(), lead];
    assert_eq!(stem_file_names(&tracks), vec!["bass.wav", "lead_synth.wav"]);
    assert_eq!(stem_file_names(&Vec::new()), Vec::<String>::new());
}
