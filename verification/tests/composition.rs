use rand::rngs::StdRng;
use rand::SeedableRng;
use tunesmith::composition::harmony::{generate_bass_track, parse_key};
use tunesmith::composition::melody::generate_melodic_track;
use tunesmith::composition::rhythm::{generate_drum_track, KICK};
use tunesmith::composition::CompositionEngine;
use tunesmith::{Instrument, MidiEventType, TuneProgram};

#[test]
fn test_parse_key() {
    assert_eq!(parse_key("C major"), 60);
    assert_eq!(parse_key("D major"), 62);
    assert_eq!(parse_key("G major"), 67);
    assert_eq!(parse_key("C# major"), 61);
}

#[test]
fn test_generate_bass_track() {
    let mut rng = StdRng::seed_from_u64(42);
    let program = TuneProgram {
        duration_bars: 4,
        ..Default::default()
    };

    let result = generate_bass_track(&program, &mut rng, 1);
    assert!(result.is_ok());

    let track = result.unwrap();
    assert_eq!(track.instrument, Instrument::Bass);
    assert!(!track.events.is_empty());

    assert!(matches!(
        track.events[0].event_type,
        MidiEventType::ProgramChange { .. }
    ));

    let note_events: Vec<_> = track
        .events
        .iter()
        .filter(|e| matches!(e.event_type, MidiEventType::NoteOn { .. }))
        .collect();
    assert!(!note_events.is_empty());
}

#[test]
fn test_generate_melodic_track() {
    let mut rng = StdRng::seed_from_u64(42);
    // Energy 0.7 gives a velocity floor of 96.
    let program = TuneProgram {
        duration_bars: 4,
        base_velocity: 96,
        ..Default::default()
    };

    let result = generate_melodic_track(&program, Instrument::Piano, &mut rng, 0);
    assert!(result.is_ok());

    let track = result.unwrap();
    assert_eq!(track.instrument, Instrument::Piano);
    assert!(!track.events.is_empty());

    let note_ons: Vec<_> = track
        .events
        .iter()
        .filter(|e| matches!(e.event_type, MidiEventType::NoteOn { .. }))
        .collect();
    let note_offs: Vec<_> = track
        .events
        .iter()
        .filter(|e| matches!(e.event_type, MidiEventType::NoteOff { .. }))
        .collect();

    assert_eq!(note_ons.len(), note_offs.len());
}

#[test]
fn test_determinism() {
    let program = TuneProgram {
        duration_bars: 2,
        ..Default::default()
    };

    let mut rng1 = StdRng::seed_from_u64(123);
    let track1 = generate_melodic_track(&program, Instrument::Synth, &mut rng1, 0).unwrap();

    let mut rng2 = StdRng::seed_from_u64(123);
    let track2 = generate_melodic_track(&program, Instrument::Synth, &mut rng2, 0).unwrap();

    assert_eq!(track1.events.len(), track2.events.len());
    for (e1, e2) in track1.events.iter().zip(track2.events.iter()) {
        assert_eq!(e1.time, e2.time);
        assert_eq!(e1.event_type, e2.event_type);
    }
}

#[test]
fn test_composition_engine_creation() {
    let engine = CompositionEngine::new();
    drop(engine);
}

#[test]
fn test_generate_basic_tune() {
    let engine = CompositionEngine::new();
    let program = TuneProgram {
        seed: Some(42),
        ..Default::default()
    };

    let result = engine.generate(&program);
    assert!(result.is_ok());

    let tune = result.unwrap();
    assert_eq!(tune.seed, 42);
    assert!(!tune.tracks.is_empty());
}

#[test]
fn test_generate_drum_track() {
    let mut rng = StdRng::seed_from_u64(42);
    let program = TuneProgram {
        duration_bars: 2,
        ..Default::default()
    };

    let result = generate_drum_track(&program, &mut rng, 9);
    assert!(result.is_ok());

    let track = result.unwrap();
    assert_eq!(track.instrument, Instrument::Drums);
    assert_eq!(track.channel, 9);
    assert!(!track.events.is_empty());

    let note_ons: Vec<_> = track
        .events
        .iter()
        .filter(|e| matches!(e.event_type, MidiEventType::NoteOn { .. }))
        .collect();

    assert!(note_ons.len() > 0);
}

#[test]
fn test_drum_timing() {
    let mut rng = StdRng::seed_from_u64(42);
    let program = TuneProgram {
        duration_bars: 1,
        time_signature: (4, 4),
        ..Default::default()
    };

    let track = generate_drum_track(&program, &mut rng, 9).unwrap();

    let kicks: Vec<_> = track
        .events
        .iter()
        .filter(|e| matches!(e.event_type, MidiEventType::NoteOn { note: KICK, .. }))
        .collect();

    assert!(kicks.len() >= 2);
}
