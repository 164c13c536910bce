use tunesmith::mood::{Intensity, Mood, MoodProfile, RhythmPattern};

#[test]
fn test_mood_profile_happy() {
    let profile = MoodProfile::for_mood(Mood::Happy);
    assert_eq!(profile.mood, Mood::Happy);
    assert!(profile.tempo_range.0 >= 120);
    assert!(!profile.use_dissonance);
}

#[test]
fn test_mood_profile_suspense() {
    let profile = MoodProfile::for_mood(Mood::Suspense);
    assert_eq!(profile.mood, Mood::Suspense);
    assert!(profile.use_dissonance);
    assert_eq!(profile.rhythm_pattern, RhythmPattern::Irregular);
}

fn as_fraction(range: (u32, u32)) -> (f32, f32) {
    (range.0 as f32 / 100.0, range.1 as f32 / 100.0)
}

#[test]
fn test_intensity_energy_ranges() {
    assert_eq!(as_fraction(Intensity::Light.energy_range()), (0.2, 0.4));
    assert_eq!(as_fraction(Intensity::Medium.energy_range()), (0.4, 0.6));
    assert_eq!(as_fraction(Intensity::Intense.energy_range()), (0.6, 0.9));
}

#[test]
fn test_all_moods_have_profiles() {
    for mood in Mood::all() {
        let profile = MoodProfile::for_mood(mood);
        assert!(!profile.instruments.is_empty());
        assert!(profile.tempo_range.0 < profile.tempo_range.1);
    }
}
