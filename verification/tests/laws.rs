use tunesmith::composition::harmony::parse_key;
use tunesmith::composition::melody::parse_key as melody_key;
use tunesmith::composition::CompositionEngine;
use tunesmith::export::midi::write_vlq;
use tunesmith::mood::{parse_intensity, parse_mood, preset, Intensity, Mood, MoodProfile};
use tunesmith::utils::create_rng;
use tunesmith::{Instrument, MidiEventType, MidiTrack, TuneProgram};

fn program(seed: u64) -> TuneProgram {
    TuneProgram {
        seed: Some(seed),
        duration_bars: 2,
        instruments: vec![
            Instrument::Piano,
            Instrument::Bass,
            Instrument::Drums,
            Instrument::Strings,
        ],
        ..Default::default()
    }
}

fn read_vlq(bytes: &[u8]) -> u32 {
    let mut value: u32 = 0;
    for b in bytes {
        value = (value << 7) | u32::from(b & 0x7F);
    }
    value
}

fn is_note_pairs(track: &MidiTrack, from: usize) -> bool {
    let events = &track.events[from..];
    if events.len() % 2 != 0 {
        return false;
    }
    events.chunks(2).all(|pair| match (pair[0].event_type, pair[1].event_type) {
        (MidiEventType::NoteOn { note: a, .. }, MidiEventType::NoteOff { note: b }) => {
            a == b && pair[0].time < pair[1].time
        }
        _ => false,
    })
}

#[test]
fn replaying_a_seed_gives_the_same_tracks() {
    let engine = CompositionEngine::new();
    let first = engine.generate(&program(7)).unwrap();
    let mut other = program(7);
    other.tempo = 90;
    other.style = "jazz".to_string();
    other.description = "another description".to_string();
    let second = engine.generate(&other).unwrap();
    assert_eq!(first.tracks.len(), second.tracks.len());
    for (a, b) in first.tracks.iter().zip(second.tracks.iter()) {
        assert_eq!(a.name, b.name);
        assert_eq!(a.channel, b.channel);
        assert_eq!(a.events, b.events);
    }
}

#[test]
fn generated_tune_keeps_the_program_and_seed() {
    let engine = CompositionEngine::new();
    let p = program(99);
    let tune = engine.generate(&p).unwrap();
    assert_eq!(tune.seed, 99);
    assert_eq!(tune.program.key, p.key);
    assert_eq!(tune.program.instruments, p.instruments);
}

#[test]
fn one_track_per_instrument_on_its_channel() {
    let engine = CompositionEngine::new();
    let p = program(3);
    let tune = engine.generate(&p).unwrap();
    assert_eq!(tune.tracks.len(), 4);
    for (i, (track, instrument)) in tune.tracks.iter().zip(p.instruments.iter()).enumerate() {
        assert_eq!(track.instrument, *instrument);
        let expected = if *instrument == Instrument::Drums { 9 } else { i as u8 };
        assert_eq!(track.channel, expected);
    }
}

#[test]
fn only_drums_play_on_channel_ten() {
    let engine = CompositionEngine::new();
    let mut instruments = vec![Instrument::Piano; 20];
    instruments[3] = Instrument::Drums;
    let p = TuneProgram {
        seed: Some(1),
        duration_bars: 1,
        instruments: instruments.clone(),
        ..Default::default()
    };
    let tune = engine.generate(&p).unwrap();
    let channels: Vec<u8> = tune.tracks.iter().map(|t| t.channel).collect();
    assert_eq!(
        channels,
        vec![0, 1, 2, 9, 4, 5, 6, 7, 8, 10, 11, 12, 13, 14, 15, 0, 1, 2, 3, 4]
    );
    for (track, instrument) in tune.tracks.iter().zip(instruments.iter()) {
        assert!(track.channel < 16);
        assert_eq!(track.channel == 9, *instrument == Instrument::Drums);
    }
}

#[test]
fn melody_bytes_are_midi_data_bytes() {
    let mut rng = create_rng(Some(8));
    for key in ["B# major", "B major", "Bb major", "C major"] {
        let p = TuneProgram {
            key: key.to_string(),
            base_velocity: 120,
            duration_bars: 8,
            ..Default::default()
        };
        let track = melody_track(&p, &mut rng);
        for e in &track.events {
            match e.event_type {
                MidiEventType::NoteOn { note, velocity } => {
                    assert!(note <= 127 && velocity <= 127)
                }
                MidiEventType::NoteOff { note } => assert!(note <= 127),
                MidiEventType::ProgramChange { program } => assert!(program <= 127),
                MidiEventType::ControlChange { controller, value } => {
                    assert!(controller <= 127 && value <= 127)
                }
            }
        }
    }
}

#[test]
fn velocity_is_capped_at_127() {
    let mut rng = create_rng(Some(2));
    let p = TuneProgram {
        base_velocity: 120,
        duration_bars: 8,
        ..Default::default()
    };
    let track = melody_track(&p, &mut rng);
    let capped = track.events.iter().any(|e| {
        matches!(e.event_type, MidiEventType::NoteOn { velocity: 127, .. })
    });
    assert!(capped);
}

fn melody_track(p: &TuneProgram, rng: &mut rand::rngs::StdRng) -> MidiTrack {
    tunesmith::composition::melody::generate_melodic_track(p, Instrument::Piano, rng, 0).unwrap()
}

#[test]
fn generated_tracks_are_note_pairs() {
    let engine = CompositionEngine::new();
    let tune = engine.generate(&program(11)).unwrap();
    for track in &tune.tracks {
        if track.instrument == Instrument::Drums {
            assert!(is_note_pairs(track, 0));
        } else {
            assert!(matches!(
                track.events[0].event_type,
                MidiEventType::ProgramChange { .. }
            ));
            assert!(is_note_pairs(track, 1));
        }
    }
}

#[test]
fn vlq_round_trip() {
    for value in [0u32, 1, 127, 128, 8191, 16383, 16384, 2_097_151, 2_097_152, 0x0FFF_FFFF] {
        let mut data = Vec::new();
        write_vlq(&mut data, value);
        assert_eq!(read_vlq(&data), value);
        let (last, rest) = data.split_last().unwrap();
        assert!(last & 0x80 == 0);
        assert!(rest.iter().all(|b| b & 0x80 != 0));
    }
}

#[test]
fn key_parsing_edge_cases() {
    assert_eq!(parse_key("Bb major"), 71);
    assert_eq!(parse_key("Eb minor"), 63);
    assert_eq!(parse_key("B minor"), 71);
    assert_eq!(parse_key("F sharp minor"), 66);
    assert_eq!(parse_key("unknown"), 60);
    assert_eq!(parse_key(""), 60);
    assert_eq!(parse_key("a minor"), 69);
}

#[test]
fn melody_key_parsing_edge_cases() {
    assert_eq!(melody_key("C major"), 60);
    assert_eq!(melody_key("A minor"), 69);
    assert_eq!(melody_key("E flat major"), 63);
    assert_eq!(melody_key("Eb major"), 64);
    assert_eq!(melody_key("G# minor"), 68);
}

#[test]
fn every_mood_name_parses_back() {
    for m in Mood::all() {
        assert_eq!(parse_mood(m.name()), Some(m));
        assert_eq!(parse_mood(&format!("{:?}", m)), Some(m));
        assert_eq!(parse_mood(&m.name().to_uppercase()), Some(m));
    }
    assert_eq!(parse_mood("DAR\u{212A}"), Some(Mood::Dark));
    assert_eq!(parse_mood("unknown"), None);
    assert_eq!(parse_mood("happy "), None);
}

#[test]
fn intensity_names_parse_back() {
    for i in [Intensity::Light, Intensity::Medium, Intensity::Intense] {
        assert_eq!(parse_intensity(i.name()), Some(i));
    }
    assert_eq!(parse_intensity("INTENSE"), Some(Intensity::Intense));
    assert_eq!(parse_intensity("extreme"), None);
}

#[test]
fn presets() {
    assert_eq!(
        preset("youtube-intro"),
        Some((Mood::Uplifting, 10, Intensity::Intense))
    );
    assert_eq!(preset("podcast-bg"), preset("podcast-background"));
    assert_eq!(preset("study"), Some((Mood::Calm, 300, Intensity::Light)));
    assert_eq!(preset("YouTube-Intro"), None);
    assert_eq!(preset(""), None);
}

#[test]
fn profile_draws_stay_in_range() {
    let mut rng = create_rng(Some(5));
    for m in Mood::all() {
        let profile = MoodProfile::for_mood(m);
        let tempo = profile.random_tempo(&mut rng);
        assert!(profile.tempo_range.0 <= tempo && tempo <= profile.tempo_range.1);
        let key = profile.random_key(&mut rng);
        assert!(profile.preferred_keys.iter().any(|k| *k == key));
    }
}

#[test]
fn mood_texts() {
    assert_eq!(Mood::Happy.emoji(), "😊");
    assert!(!Mood::Calm.description().is_empty());
    assert_eq!(Mood::Fear.use_cases().len(), 3);
    assert_eq!(Mood::all().len(), 19);
}

#[test]
fn default_program() {
    let p = TuneProgram::default();
    assert_eq!(p.tempo, 120);
    assert_eq!(p.time_signature, (4, 4));
    assert_eq!(p.key, "C major");
    assert_eq!(p.duration_bars, 8);
    assert_eq!(p.base_velocity, 80);
}

#[test]
fn rng_without_seed_still_generates() {
    let engine = CompositionEngine::new();
    let p = TuneProgram {
        seed: None,
        duration_bars: 1,
        ..Default::default()
    };
    let tune = engine.generate(&p).unwrap();
    let again = engine
        .generate(&TuneProgram {
            seed: Some(tune.seed),
            ..p.clone()
        })
        .unwrap();
    assert_eq!(tune.tracks.len(), again.tracks.len());
    for (a, b) in tune.tracks.iter().zip(again.tracks.iter()) {
        assert_eq!(a.events, b.events);
    }
    let _ = create_rng(None);
}

#[test]
fn long_tunes_up_to_the_melody_bound_generate() {
    let engine = CompositionEngine::new();
    let p = TuneProgram {
        seed: Some(4),
        duration_bars: 69_905,
        instruments: vec![Instrument::Piano, Instrument::Drums, Instrument::Bass],
        ..Default::default()
    };
    assert_eq!(p.duration_bars * p.time_signature.0, 279_620);
    let tune = engine.generate(&p).unwrap();
    let last_tick = tune
        .tracks
        .iter()
        .flat_map(|t| t.events.iter())
        .map(|e| e.time)
        .max()
        .unwrap();
    assert!(last_tick < 279_620 * 480 + 480);
}
