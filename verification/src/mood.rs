//! Mood-based music parameters for content creators.
//!
//! Moods map to tempo ranges, keys, energy ranges, instrumentation, style
//! and rhythm character. Energy levels and dynamic variation are held in
//! hundredths (70 stands for 0.7).

use rand::rngs::StdRng;
use vstd::prelude::*;

use crate::random::{gen_index, gen_u32_inclusive, index_draw, rng_stream, u32_inclusive_draw};
use crate::text::{chars_of, equals_folded, lemma_folded_unique, same_chars, same_folded};
use crate::types::Instrument;

verus! {

/// Primary moods for content creators.
#[derive(Debug, Clone, Copy, PartialEq, Eq, Hash, Structural)]
pub enum Mood {
    Happy,
    Uplifting,
    Romantic,
    Playful,
    Peaceful,
    Calm,
    Dreamy,
    Mysterious,
    Ambient,
    Sad,
    Melancholic,
    Suspense,
    Thriller,
    Fear,
    Dark,
    Intense,
    Epic,
    Corporate,
    Inspirational,
}

/// Every mood, in catalogue order.
pub open spec fn spec_all_moods() -> Seq<Mood> {
    seq![
        Mood::Happy,
        Mood::Uplifting,
        Mood::Romantic,
        Mood::Playful,
        Mood::Peaceful,
        Mood::Calm,
        Mood::Dreamy,
        Mood::Mysterious,
        Mood::Ambient,
        Mood::Sad,
        Mood::Melancholic,
        Mood::Suspense,
        Mood::Thriller,
        Mood::Fear,
        Mood::Dark,
        Mood::Intense,
        Mood::Epic,
        Mood::Corporate,
        Mood::Inspirational,
    ]
}

/// The emoji of each mood.
pub open spec fn spec_emoji(m: Mood) -> Seq<char> {
    match m {
        Mood::Happy => "😊"@,
        Mood::Uplifting => "🚀"@,
        Mood::Romantic => "💕"@,
        Mood::Playful => "🎮"@,
        Mood::Peaceful => "🕊️"@,
        Mood::Calm => "😌"@,
        Mood::Dreamy => "💭"@,
        Mood::Mysterious => "🔮"@,
        Mood::Ambient => "🌌"@,
        Mood::Sad => "😢"@,
        Mood::Melancholic => "🥀"@,
        Mood::Suspense => "😰"@,
        Mood::Thriller => "😱"@,
        Mood::Fear => "😨"@,
        Mood::Dark => "🌑"@,
        Mood::Intense => "💥"@,
        Mood::Epic => "⚔️"@,
        Mood::Corporate => "💼"@,
        Mood::Inspirational => "✨"@,
    }
}

/// The description of each mood.
pub open spec fn spec_description(m: Mood) -> Seq<char> {
    match m {
        Mood::Happy => "Upbeat, joyful music perfect for celebrations"@,
        Mood::Uplifting => "Motivating, energetic music that inspires"@,
        Mood::Romantic => "Soft, emotional music for love scenes"@,
        Mood::Playful => "Fun, bouncy music for lighthearted content"@,
        Mood::Peaceful => "Gentle, soothing music for relaxation"@,
        Mood::Calm => "Tranquil background music, unobtrusive"@,
        Mood::Dreamy => "Ethereal, floating soundscapes"@,
        Mood::Mysterious => "Enigmatic, curious music with questions"@,
        Mood::Ambient => "Atmospheric background, minimal intrusion"@,
        Mood::Sad => "Melancholic, emotional music for somber moments"@,
        Mood::Melancholic => "Reflective, bittersweet emotional tone"@,
        Mood::Suspense => "Tense, mysterious music building anticipation"@,
        Mood::Thriller => "High-tension, dramatic music for intense scenes"@,
        Mood::Fear => "Dark, unsettling music creating unease"@,
        Mood::Dark => "Brooding, ominous atmospheric music"@,
        Mood::Intense => "Powerful, dramatic music with high energy"@,
        Mood::Epic => "Cinematic, grand music for dramatic moments"@,
        Mood::Corporate => "Professional, modern business background music"@,
        Mood::Inspirational => "Hopeful, emotional music that motivates"@,
    }
}

/// The common use cases of each mood.
pub open spec fn spec_use_cases(m: Mood) -> Seq<Seq<char>> {
    match m {
        Mood::Happy => seq!["Birthday videos"@, "Success stories"@, "Comedy content"@],
        Mood::Uplifting => seq!["Motivational videos"@, "Workout content"@, "Achievement highlights"@],
        Mood::Romantic => seq!["Wedding videos"@, "Love stories"@, "Relationship content"@],
        Mood::Playful => seq!["Kids content"@, "Game videos"@, "Pet videos"@],
        Mood::Peaceful => seq!["Meditation"@, "Nature documentaries"@, "Spa content"@],
        Mood::Calm => seq!["Study music"@, "Background for vlogs"@, "Podcast intros"@],
        Mood::Dreamy => seq!["Art videos"@, "Fantasy content"@, "Creative showcases"@],
        Mood::Mysterious => seq!["True crime"@, "Investigation videos"@, "Mystery content"@],
        Mood::Ambient => seq!["Timelapse videos"@, "Long-form content"@, "Ambient backgrounds"@],
        Mood::Sad => seq!["Emotional stories"@, "Memorial videos"@, "Drama content"@],
        Mood::Melancholic => seq!["Reflective videos"@, "Nostalgic content"@, "Art films"@],
        Mood::Suspense => seq!["Thriller videos"@, "Anticipation build-ups"@, "Mystery reveals"@],
        Mood::Thriller => seq!["Action scenes"@, "Chase sequences"@, "Intense moments"@],
        Mood::Fear => seq!["Horror content"@, "Scary videos"@, "Halloween content"@],
        Mood::Dark => seq!["Gothic content"@, "Dark themes"@, "Noir aesthetics"@],
        Mood::Intense => seq!["Sports highlights"@, "Action sequences"@, "Dramatic reveals"@],
        Mood::Epic => seq!["Cinematic trailers"@, "Epic moments"@, "Grand reveals"@],
        Mood::Corporate => seq!["Business presentations"@, "Product demos"@, "Professional content"@],
        Mood::Inspirational => seq!["Success stories"@, "Transformation videos"@, "Life coaching"@],
    }
}

/// The lowercase name of each mood.
pub open spec fn spec_mood_name(m: Mood) -> Seq<char> {
    match m {
        Mood::Happy => "happy"@,
        Mood::Uplifting => "uplifting"@,
        Mood::Romantic => "romantic"@,
        Mood::Playful => "playful"@,
        Mood::Peaceful => "peaceful"@,
        Mood::Calm => "calm"@,
        Mood::Dreamy => "dreamy"@,
        Mood::Mysterious => "mysterious"@,
        Mood::Ambient => "ambient"@,
        Mood::Sad => "sad"@,
        Mood::Melancholic => "melancholic"@,
        Mood::Suspense => "suspense"@,
        Mood::Thriller => "thriller"@,
        Mood::Fear => "fear"@,
        Mood::Dark => "dark"@,
        Mood::Intense => "intense"@,
        Mood::Epic => "epic"@,
        Mood::Corporate => "corporate"@,
        Mood::Inspirational => "inspirational"@,
    }
}

/// The views of a list of string slices.
pub open spec fn str_views(v: Seq<&str>) -> Seq<Seq<char>> {
    v.map_values(|s: &str| s@)
}

impl Mood {
    /// Get all available moods.
    pub fn all() -> (r: Vec<Mood>)
        ensures
            r@ == spec_all_moods(),
    {
        let r = vec![
            Mood::Happy,
            Mood::Uplifting,
            Mood::Romantic,
            Mood::Playful,
            Mood::Peaceful,
            Mood::Calm,
            Mood::Dreamy,
            Mood::Mysterious,
            Mood::Ambient,
            Mood::Sad,
            Mood::Melancholic,
            Mood::Suspense,
            Mood::Thriller,
            Mood::Fear,
            Mood::Dark,
            Mood::Intense,
            Mood::Epic,
            Mood::Corporate,
            Mood::Inspirational,
        ];
        assert(r@ =~= spec_all_moods());
        r
    }

    /// Get the emoji representation.
    pub fn emoji(&self) -> (s: &'static str)
        ensures
            s@ == spec_emoji(*self),
    {
        match self {
            Mood::Happy => "😊",
            Mood::Uplifting => "🚀",
            Mood::Romantic => "💕",
            Mood::Playful => "🎮",
            Mood::Peaceful => "🕊️",
            Mood::Calm => "😌",
            Mood::Dreamy => "💭",
            Mood::Mysterious => "🔮",
            Mood::Ambient => "🌌",
            Mood::Sad => "😢",
            Mood::Melancholic => "🥀",
            Mood::Suspense => "😰",
            Mood::Thriller => "😱",
            Mood::Fear => "😨",
            Mood::Dark => "🌑",
            Mood::Intense => "💥",
            Mood::Epic => "⚔️",
            Mood::Corporate => "💼",
            Mood::Inspirational => "✨",
        }
    }

    /// Get the description for content creators.
    pub fn description(&self) -> (s: &'static str)
        ensures
            s@ == spec_description(*self),
    {
        match self {
            Mood::Happy => "Upbeat, joyful music perfect for celebrations",
            Mood::Uplifting => "Motivating, energetic music that inspires",
            Mood::Romantic => "Soft, emotional music for love scenes",
            Mood::Playful => "Fun, bouncy music for lighthearted content",
            Mood::Peaceful => "Gentle, soothing music for relaxation",
            Mood::Calm => "Tranquil background music, unobtrusive",
            Mood::Dreamy => "Ethereal, floating soundscapes",
            Mood::Mysterious => "Enigmatic, curious music with questions",
            Mood::Ambient => "Atmospheric background, minimal intrusion",
            Mood::Sad => "Melancholic, emotional music for somber moments",
            Mood::Melancholic => "Reflective, bittersweet emotional tone",
            Mood::Suspense => "Tense, mysterious music building anticipation",
            Mood::Thriller => "High-tension, dramatic music for intense scenes",
            Mood::Fear => "Dark, unsettling music creating unease",
            Mood::Dark => "Brooding, ominous atmospheric music",
            Mood::Intense => "Powerful, dramatic music with high energy",
            Mood::Epic => "Cinematic, grand music for dramatic moments",
            Mood::Corporate => "Professional, modern business background music",
            Mood::Inspirational => "Hopeful, emotional music that motivates",
        }
    }

    /// Get the common use cases.
    pub fn use_cases(&self) -> (v: Vec<&'static str>)
        ensures
            str_views(v@) == spec_use_cases(*self),
    {
        let v = match self {
            Mood::Happy => vec!["Birthday videos", "Success stories", "Comedy content"],
            Mood::Uplifting => vec!["Motivational videos", "Workout content", "Achievement highlights"],
            Mood::Romantic => vec!["Wedding videos", "Love stories", "Relationship content"],
            Mood::Playful => vec!["Kids content", "Game videos", "Pet videos"],
            Mood::Peaceful => vec!["Meditation", "Nature documentaries", "Spa content"],
            Mood::Calm => vec!["Study music", "Background for vlogs", "Podcast intros"],
            Mood::Dreamy => vec!["Art videos", "Fantasy content", "Creative showcases"],
            Mood::Mysterious => vec!["True crime", "Investigation videos", "Mystery content"],
            Mood::Ambient => vec!["Timelapse videos", "Long-form content", "Ambient backgrounds"],
            Mood::Sad => vec!["Emotional stories", "Memorial videos", "Drama content"],
            Mood::Melancholic => vec!["Reflective videos", "Nostalgic content", "Art films"],
            Mood::Suspense => vec!["Thriller videos", "Anticipation build-ups", "Mystery reveals"],
            Mood::Thriller => vec!["Action scenes", "Chase sequences", "Intense moments"],
            Mood::Fear => vec!["Horror content", "Scary videos", "Halloween content"],
            Mood::Dark => vec!["Gothic content", "Dark themes", "Noir aesthetics"],
            Mood::Intense => vec!["Sports highlights", "Action sequences", "Dramatic reveals"],
            Mood::Epic => vec!["Cinematic trailers", "Epic moments", "Grand reveals"],
            Mood::Corporate => vec!["Business presentations", "Product demos", "Professional content"],
            Mood::Inspirational => vec!["Success stories", "Transformation videos", "Life coaching"],
        };
        assert(str_views(v@) =~= spec_use_cases(*self));
        v
    }

    /// The mood's lowercase name.
    pub fn name(&self) -> (s: &'static str)
        ensures
            s@ == spec_mood_name(*self),
    {
        match self {
            Mood::Happy => "happy",
            Mood::Uplifting => "uplifting",
            Mood::Romantic => "romantic",
            Mood::Playful => "playful",
            Mood::Peaceful => "peaceful",
            Mood::Calm => "calm",
            Mood::Dreamy => "dreamy",
            Mood::Mysterious => "mysterious",
            Mood::Ambient => "ambient",
            Mood::Sad => "sad",
            Mood::Melancholic => "melancholic",
            Mood::Suspense => "suspense",
            Mood::Thriller => "thriller",
            Mood::Fear => "fear",
            Mood::Dark => "dark",
            Mood::Intense => "intense",
            Mood::Epic => "epic",
            Mood::Corporate => "corporate",
            Mood::Inspirational => "inspirational",
        }
    }
}

/// Intensity level for mood expression.
#[derive(Debug, Clone, Copy, PartialEq, Eq, Hash, Structural)]
pub enum Intensity {
    /// Subtle background music (energy 0.2 to 0.4).
    Light,
    /// Noticeable but not overwhelming (energy 0.4 to 0.6).
    Medium,
    /// Dramatic, foreground music (energy 0.6 to 0.9).
    Intense,
}

/// The energy range of each intensity, in hundredths.
pub open spec fn spec_energy_range(i: Intensity) -> (u32, u32) {
    match i {
        Intensity::Light => (20, 40),
        Intensity::Medium => (40, 60),
        Intensity::Intense => (60, 90),
    }
}

/// The lowercase name of each intensity.
pub open spec fn spec_intensity_name(i: Intensity) -> Seq<char> {
    match i {
        Intensity::Light => "light"@,
        Intensity::Medium => "medium"@,
        Intensity::Intense => "intense"@,
    }
}

impl Intensity {
    /// Get the energy range for this intensity, in hundredths.
    pub fn energy_range(&self) -> (r: (u32, u32))
        ensures
            r == spec_energy_range(*self),
    {
        match self {
            Intensity::Light => (20, 40),
            Intensity::Medium => (40, 60),
            Intensity::Intense => (60, 90),
        }
    }

    /// The intensity's lowercase name.
    pub fn name(&self) -> (s: &'static str)
        ensures
            s@ == spec_intensity_name(*self),
    {
        match self {
            Intensity::Light => "light",
            Intensity::Medium => "medium",
            Intensity::Intense => "intense",
        }
    }
}

/// The intensity a request has when it names none.
pub fn default_intensity() -> (i: Intensity)
    ensures
        i == Intensity::Medium,
{
    Intensity::Medium
}

/// Rhythm pattern characteristics.
#[derive(Debug, Clone, Copy, PartialEq, Eq, Structural)]
pub enum RhythmPattern {
    /// Sparse, minimal rhythm (suspense, ambient).
    Sparse,
    /// Steady, driving beat (pop, rock).
    Steady,
    /// Irregular, unpredictable (tension, thriller).
    Irregular,
}

/// Mood profile with research-backed musical parameters.
pub struct MoodProfile {
    pub mood: Mood,
    pub tempo_range: (u32, u32),
    pub preferred_keys: Vec<&'static str>,
    /// Energy range, in hundredths.
    pub base_energy: (u32, u32),
    pub instruments: Vec<Instrument>,
    pub style: &'static str,
    pub rhythm_pattern: RhythmPattern,
    pub use_dissonance: bool,
    /// How much the volume varies, in hundredths (0 to 100).
    pub dynamics_variation: u32,
}

/// The values a mood profile holds.
pub struct ProfileView {
    pub mood: Mood,
    pub tempo_range: (u32, u32),
    pub preferred_keys: Seq<Seq<char>>,
    pub base_energy: (u32, u32),
    pub instruments: Seq<Instrument>,
    pub style: Seq<char>,
    pub rhythm_pattern: RhythmPattern,
    pub use_dissonance: bool,
    pub dynamics_variation: u32,
}

impl View for MoodProfile {
    type V = ProfileView;

    open spec fn view(&self) -> ProfileView {
        ProfileView {
            mood: self.mood,
            tempo_range: self.tempo_range,
            preferred_keys: str_views(self.preferred_keys@),
            base_energy: self.base_energy,
            instruments: self.instruments@,
            style: self.style@,
            rhythm_pattern: self.rhythm_pattern,
            use_dissonance: self.use_dissonance,
            dynamics_variation: self.dynamics_variation,
        }
    }
}

/// The profile of each mood.
pub open spec fn spec_profile(mood: Mood) -> ProfileView {
    match mood {
        Mood::Happy => ProfileView {
            mood,
            tempo_range: (120, 140),
            preferred_keys: seq!["C major"@, "G major"@, "D major"@, "F major"@],
            base_energy: (70, 90),
            instruments: seq![Instrument::Piano, Instrument::Guitar, Instrument::Drums, Instrument::Bass],
            style: "pop"@,
            rhythm_pattern: RhythmPattern::Steady,
            use_dissonance: false,
            dynamics_variation: 30,
        },
        Mood::Uplifting => ProfileView {
            mood,
            tempo_range: (125, 145),
            preferred_keys: seq!["C major"@, "D major"@, "E major"@],
            base_energy: (75, 95),
            instruments: seq![Instrument::Synth, Instrument::Piano, Instrument::Strings, Instrument::Drums],
            style: "electronic"@,
            rhythm_pattern: RhythmPattern::Steady,
            use_dissonance: false,
            dynamics_variation: 40,
        },
        Mood::Romantic => ProfileView {
            mood,
            tempo_range: (70, 90),
            preferred_keys: seq!["C major"@, "F major"@, "Bb major"@],
            base_energy: (40, 60),
            instruments: seq![Instrument::Piano, Instrument::Strings, Instrument::Pad],
            style: "classical"@,
            rhythm_pattern: RhythmPattern::Sparse,
            use_dissonance: false,
            dynamics_variation: 50,
        },
        Mood::Playful => ProfileView {
            mood,
            tempo_range: (130, 150),
            preferred_keys: seq!["C major"@, "G major"@, "D major"@],
            base_energy: (60, 80),
            instruments: seq![Instrument::Piano, Instrument::Synth, Instrument::Drums],
            style: "pop"@,
            rhythm_pattern: RhythmPattern::Steady,
            use_dissonance: false,
            dynamics_variation: 40,
        },
        Mood::Peaceful => ProfileView {
            mood,
            tempo_range: (60, 75),
            preferred_keys: seq!["C major"@, "F major"@, "G major"@],
            base_energy: (20, 40),
            instruments: seq![Instrument::Piano, Instrument::Pad, Instrument::Strings],
            style: "ambient"@,
            rhythm_pattern: RhythmPattern::Sparse,
            use_dissonance: false,
            dynamics_variation: 20,
        },
        Mood::Calm => ProfileView {
            mood,
            tempo_range: (65, 80),
            preferred_keys: seq!["C major"@, "F major"@, "Eb major"@],
            base_energy: (25, 45),
            instruments: seq![Instrument::Piano, Instrument::Pad, Instrument::Strings],
            style: "ambient"@,
            rhythm_pattern: RhythmPattern::Sparse,
            use_dissonance: false,
            dynamics_variation: 15,
        },
        Mood::Dreamy => ProfileView {
            mood,
            tempo_range: (70, 90),
            preferred_keys: seq!["C major"@, "D major"@, "A major"@],
            base_energy: (30, 50),
            instruments: seq![Instrument::Pad, Instrument::Synth, Instrument::Piano],
            style: "ambient"@,
            rhythm_pattern: RhythmPattern::Sparse,
            use_dissonance: false,
            dynamics_variation: 30,
        },
        Mood::Mysterious => ProfileView {
            mood,
            tempo_range: (75, 95),
            preferred_keys: seq!["A minor"@, "E minor"@, "D minor"@],
            base_energy: (35, 55),
            instruments: seq![Instrument::Strings, Instrument::Pad, Instrument::Piano],
            style: "cinematic"@,
            rhythm_pattern: RhythmPattern::Sparse,
            use_dissonance: true,
            dynamics_variation: 40,
        },
        Mood::Ambient => ProfileView {
            mood,
            tempo_range: (60, 80),
            preferred_keys: seq!["C major"@, "D minor"@, "F major"@],
            base_energy: (20, 35),
            instruments: seq![Instrument::Pad, Instrument::Strings],
            style: "ambient"@,
            rhythm_pattern: RhythmPattern::Sparse,
            use_dissonance: false,
            dynamics_variation: 10,
        },
        Mood::Sad => ProfileView {
            mood,
            tempo_range: (60, 80),
            preferred_keys: seq!["A minor"@, "E minor"@, "D minor"@, "C minor"@],
            base_energy: (25, 45),
            instruments: seq![Instrument::Piano, Instrument::Strings],
            style: "classical"@,
            rhythm_pattern: RhythmPattern::Sparse,
            use_dissonance: false,
            dynamics_variation: 40,
        },
        Mood::Melancholic => ProfileView {
            mood,
            tempo_range: (65, 85),
            preferred_keys: seq!["A minor"@, "D minor"@, "E minor"@],
            base_energy: (30, 50),
            instruments: seq![Instrument::Piano, Instrument::Strings, Instrument::Pad],
            style: "classical"@,
            rhythm_pattern: RhythmPattern::Sparse,
            use_dissonance: false,
            dynamics_variation: 50,
        },
        Mood::Suspense => ProfileView {
            mood,
            tempo_range: (80, 100),
            preferred_keys: seq!["D minor"@, "E minor"@, "A minor"@],
            base_energy: (35, 55),
            instruments: seq![Instrument::Strings, Instrument::Pad, Instrument::Drums],
            style: "cinematic"@,
            rhythm_pattern: RhythmPattern::Irregular,
            use_dissonance: true,
            dynamics_variation: 60,
        },
        Mood::Thriller => ProfileView {
            mood,
            tempo_range: (110, 130),
            preferred_keys: seq!["D minor"@, "C minor"@, "E minor"@],
            base_energy: (60, 80),
            instruments: seq![Instrument::Synth, Instrument::Strings, Instrument::Drums],
            style: "cinematic"@,
            rhythm_pattern: RhythmPattern::Irregular,
            use_dissonance: true,
            dynamics_variation: 70,
        },
        Mood::Fear => ProfileView {
            mood,
            tempo_range: (90, 120),
            preferred_keys: seq!["C minor"@, "D minor"@, "F minor"@],
            base_energy: (50, 70),
            instruments: seq![Instrument::Strings, Instrument::Synth, Instrument::Drums],
            style: "cinematic"@,
            rhythm_pattern: RhythmPattern::Irregular,
            use_dissonance: true,
            dynamics_variation: 80,
        },
        Mood::Dark => ProfileView {
            mood,
            tempo_range: (75, 95),
            preferred_keys: seq!["C minor"@, "D minor"@, "E minor"@],
            base_energy: (40, 60),
            instruments: seq![Instrument::Synth, Instrument::Strings, Instrument::Pad],
            style: "electronic"@,
            rhythm_pattern: RhythmPattern::Sparse,
            use_dissonance: true,
            dynamics_variation: 50,
        },
        Mood::Intense => ProfileView {
            mood,
            tempo_range: (130, 160),
            preferred_keys: seq!["D minor"@, "E minor"@, "C minor"@],
            base_energy: (75, 95),
            instruments: seq![Instrument::Synth, Instrument::Drums, Instrument::Bass, Instrument::Strings],
            style: "electronic"@,
            rhythm_pattern: RhythmPattern::Steady,
            use_dissonance: true,
            dynamics_variation: 60,
        },
        Mood::Epic => ProfileView {
            mood,
            tempo_range: (130, 150),
            preferred_keys: seq!["C major"@, "D major"@, "E minor"@],
            base_energy: (80, 100),
            instruments: seq![Instrument::Brass, Instrument::Strings, Instrument::Drums, Instrument::Synth],
            style: "cinematic"@,
            rhythm_pattern: RhythmPattern::Steady,
            use_dissonance: false,
            dynamics_variation: 70,
        },
        Mood::Corporate => ProfileView {
            mood,
            tempo_range: (100, 120),
            preferred_keys: seq!["C major"@, "G major"@, "F major"@],
            base_energy: (50, 70),
            instruments: seq![Instrument::Piano, Instrument::Synth, Instrument::Drums],
            style: "pop"@,
            rhythm_pattern: RhythmPattern::Steady,
            use_dissonance: false,
            dynamics_variation: 30,
        },
        Mood::Inspirational => ProfileView {
            mood,
            tempo_range: (90, 110),
            preferred_keys: seq!["C major"@, "D major"@, "G major"@],
            base_energy: (60, 80),
            instruments: seq![Instrument::Piano, Instrument::Strings, Instrument::Synth, Instrument::Drums],
            style: "cinematic"@,
            rhythm_pattern: RhythmPattern::Steady,
            use_dissonance: false,
            dynamics_variation: 50,
        },
    }
}

impl MoodProfile {
    /// Get the profile for a mood.
    pub fn for_mood(mood: Mood) -> (p: Self)
        ensures
            p@ == spec_profile(mood),
    {
        let p = match mood {
            Mood::Happy => MoodProfile {
                mood,
                tempo_range: (120, 140),
                preferred_keys: vec!["C major", "G major", "D major", "F major"],
                base_energy: (70, 90),
                instruments: vec![Instrument::Piano, Instrument::Guitar, Instrument::Drums, Instrument::Bass],
                style: "pop",
                rhythm_pattern: RhythmPattern::Steady,
                use_dissonance: false,
                dynamics_variation: 30,
            },
            Mood::Uplifting => MoodProfile {
                mood,
                tempo_range: (125, 145),
                preferred_keys: vec!["C major", "D major", "E major"],
                base_energy: (75, 95),
                instruments: vec![Instrument::Synth, Instrument::Piano, Instrument::Strings, Instrument::Drums],
                style: "electronic",
                rhythm_pattern: RhythmPattern::Steady,
                use_dissonance: false,
                dynamics_variation: 40,
            },
            Mood::Romantic => MoodProfile {
                mood,
                tempo_range: (70, 90),
                preferred_keys: vec!["C major", "F major", "Bb major"],
                base_energy: (40, 60),
                instruments: vec![Instrument::Piano, Instrument::Strings, Instrument::Pad],
                style: "classical",
                rhythm_pattern: RhythmPattern::Sparse,
                use_dissonance: false,
                dynamics_variation: 50,
            },
            Mood::Playful => MoodProfile {
                mood,
                tempo_range: (130, 150),
                preferred_keys: vec!["C major", "G major", "D major"],
                base_energy: (60, 80),
                instruments: vec![Instrument::Piano, Instrument::Synth, Instrument::Drums],
                style: "pop",
                rhythm_pattern: RhythmPattern::Steady,
                use_dissonance: false,
                dynamics_variation: 40,
            },
            Mood::Peaceful => MoodProfile {
                mood,
                tempo_range: (60, 75),
                preferred_keys: vec!["C major", "F major", "G major"],
                base_energy: (20, 40),
                instruments: vec![Instrument::Piano, Instrument::Pad, Instrument::Strings],
                style: "ambient",
                rhythm_pattern: RhythmPattern::Sparse,
                use_dissonance: false,
                dynamics_variation: 20,
            },
            Mood::Calm => MoodProfile {
                mood,
                tempo_range: (65, 80),
                preferred_keys: vec!["C major", "F major", "Eb major"],
                base_energy: (25, 45),
                instruments: vec![Instrument::Piano, Instrument::Pad, Instrument::Strings],
                style: "ambient",
                rhythm_pattern: RhythmPattern::Sparse,
                use_dissonance: false,
                dynamics_variation: 15,
            },
            Mood::Dreamy => MoodProfile {
                mood,
                tempo_range: (70, 90),
                preferred_keys: vec!["C major", "D major", "A major"],
                base_energy: (30, 50),
                instruments: vec![Instrument::Pad, Instrument::Synth, Instrument::Piano],
                style: "ambient",
                rhythm_pattern: RhythmPattern::Sparse,
                use_dissonance: false,
                dynamics_variation: 30,
            },
            Mood::Mysterious => MoodProfile {
                mood,
                tempo_range: (75, 95),
                preferred_keys: vec!["A minor", "E minor", "D minor"],
                base_energy: (35, 55),
                instruments: vec![Instrument::Strings, Instrument::Pad, Instrument::Piano],
                style: "cinematic",
                rhythm_pattern: RhythmPattern::Sparse,
                use_dissonance: true,
                dynamics_variation: 40,
            },
            Mood::Ambient => MoodProfile {
                mood,
                tempo_range: (60, 80),
                preferred_keys: vec!["C major", "D minor", "F major"],
                base_energy: (20, 35),
                instruments: vec![Instrument::Pad, Instrument::Strings],
                style: "ambient",
                rhythm_pattern: RhythmPattern::Sparse,
                use_dissonance: false,
                dynamics_variation: 10,
            },
            Mood::Sad => MoodProfile {
                mood,
                tempo_range: (60, 80),
                preferred_keys: vec!["A minor", "E minor", "D minor", "C minor"],
                base_energy: (25, 45),
                instruments: vec![Instrument::Piano, Instrument::Strings],
                style: "classical",
                rhythm_pattern: RhythmPattern::Sparse,
                use_dissonance: false,
                dynamics_variation: 40,
            },
            Mood::Melancholic => MoodProfile {
                mood,
                tempo_range: (65, 85),
                preferred_keys: vec!["A minor", "D minor", "E minor"],
                base_energy: (30, 50),
                instruments: vec![Instrument::Piano, Instrument::Strings, Instrument::Pad],
                style: "classical",
                rhythm_pattern: RhythmPattern::Sparse,
                use_dissonance: false,
                dynamics_variation: 50,
            },
            Mood::Suspense => MoodProfile {
                mood,
                tempo_range: (80, 100),
                preferred_keys: vec!["D minor", "E minor", "A minor"],
                base_energy: (35, 55),
                instruments: vec![Instrument::Strings, Instrument::Pad, Instrument::Drums],
                style: "cinematic",
                rhythm_pattern: RhythmPattern::Irregular,
                use_dissonance: true,
                dynamics_variation: 60,
            },
            Mood::Thriller => MoodProfile {
                mood,
                tempo_range: (110, 130),
                preferred_keys: vec!["D minor", "C minor", "E minor"],
                base_energy: (60, 80),
                instruments: vec![Instrument::Synth, Instrument::Strings, Instrument::Drums],
                style: "cinematic",
                rhythm_pattern: RhythmPattern::Irregular,
                use_dissonance: true,
                dynamics_variation: 70,
            },
            Mood::Fear => MoodProfile {
                mood,
                tempo_range: (90, 120),
                preferred_keys: vec!["C minor", "D minor", "F minor"],
                base_energy: (50, 70),
                instruments: vec![Instrument::Strings, Instrument::Synth, Instrument::Drums],
                style: "cinematic",
                rhythm_pattern: RhythmPattern::Irregular,
                use_dissonance: true,
                dynamics_variation: 80,
            },
            Mood::Dark => MoodProfile {
                mood,
                tempo_range: (75, 95),
                preferred_keys: vec!["C minor", "D minor", "E minor"],
                base_energy: (40, 60),
                instruments: vec![Instrument::Synth, Instrument::Strings, Instrument::Pad],
                style: "electronic",
                rhythm_pattern: RhythmPattern::Sparse,
                use_dissonance: true,
                dynamics_variation: 50,
            },
            Mood::Intense => MoodProfile {
                mood,
                tempo_range: (130, 160),
                preferred_keys: vec!["D minor", "E minor", "C minor"],
                base_energy: (75, 95),
                instruments: vec![Instrument::Synth, Instrument::Drums, Instrument::Bass, Instrument::Strings],
                style: "electronic",
                rhythm_pattern: RhythmPattern::Steady,
                use_dissonance: true,
                dynamics_variation: 60,
            },
            Mood::Epic => MoodProfile {
                mood,
                tempo_range: (130, 150),
                preferred_keys: vec!["C major", "D major", "E minor"],
                base_energy: (80, 100),
                instruments: vec![Instrument::Brass, Instrument::Strings, Instrument::Drums, Instrument::Synth],
                style: "cinematic",
                rhythm_pattern: RhythmPattern::Steady,
                use_dissonance: false,
                dynamics_variation: 70,
            },
            Mood::Corporate => MoodProfile {
                mood,
                tempo_range: (100, 120),
                preferred_keys: vec!["C major", "G major", "F major"],
                base_energy: (50, 70),
                instruments: vec![Instrument::Piano, Instrument::Synth, Instrument::Drums],
                style: "pop",
                rhythm_pattern: RhythmPattern::Steady,
                use_dissonance: false,
                dynamics_variation: 30,
            },
            Mood::Inspirational => MoodProfile {
                mood,
                tempo_range: (90, 110),
                preferred_keys: vec!["C major", "D major", "G major"],
                base_energy: (60, 80),
                instruments: vec![Instrument::Piano, Instrument::Strings, Instrument::Synth, Instrument::Drums],
                style: "cinematic",
                rhythm_pattern: RhythmPattern::Steady,
                use_dissonance: false,
                dynamics_variation: 50,
            },
        };
        assert(p@.preferred_keys =~= spec_profile(mood).preferred_keys);
        assert(p@.instruments =~= spec_profile(mood).instruments);
        p
    }

    /// Draw a tempo within the profile's range.
    pub fn random_tempo(&self, rng: &mut StdRng) -> (t: u32)
        requires
            self.tempo_range.0 <= self.tempo_range.1,
        ensures
            self.tempo_range.0 <= t <= self.tempo_range.1,
            (t, rng_stream(*final(rng))) == u32_inclusive_draw(
                rng_stream(*old(rng)),
                self.tempo_range.0,
                self.tempo_range.1,
            ),
    {
        gen_u32_inclusive(rng, self.tempo_range.0, self.tempo_range.1)
    }

    /// Draw one of the profile's preferred keys.
    pub fn random_key(&self, rng: &mut StdRng) -> (k: String)
        requires
            self.preferred_keys@.len() > 0,
        ensures
            ({
                let (idx, rest) = index_draw(rng_stream(*old(rng)), self.preferred_keys@.len() as u64);
                &&& idx < self.preferred_keys@.len()
                &&& k@ == self.preferred_keys@[idx as int]@
                &&& rng_stream(*final(rng)) == rest
            }),
    {
        let idx = gen_index(rng, self.preferred_keys.len());
        self.preferred_keys[idx].to_owned()
    }
}

/// Every mood is in the catalogue.
pub proof fn lemma_all_moods_complete(m: Mood)
    ensures
        spec_all_moods().contains(m),
{
    let all = spec_all_moods();
    let i: int = match m {
        Mood::Happy => 0,
        Mood::Uplifting => 1,
        Mood::Romantic => 2,
        Mood::Playful => 3,
        Mood::Peaceful => 4,
        Mood::Calm => 5,
        Mood::Dreamy => 6,
        Mood::Mysterious => 7,
        Mood::Ambient => 8,
        Mood::Sad => 9,
        Mood::Melancholic => 10,
        Mood::Suspense => 11,
        Mood::Thriller => 12,
        Mood::Fear => 13,
        Mood::Dark => 14,
        Mood::Intense => 15,
        Mood::Epic => 16,
        Mood::Corporate => 17,
        Mood::Inspirational => 18,
    };
    assert(all[i] == m);
}

/// The catalogue lists every mood exactly once.
pub proof fn lemma_all_moods_once(m: Mood)
    ensures
        spec_all_moods().contains(m),
        spec_all_moods().no_duplicates(),
{
    lemma_all_moods_complete(m);
    let all = spec_all_moods();
    assert forall|i: int, j: int| 0 <= i < all.len() && 0 <= j < all.len() && i != j implies all[i]
        != all[j] by {
        lemma_mood_index(all[i]);
        lemma_mood_index(all[j]);
    }
}

/// A mood's position in the catalogue.
pub open spec fn spec_mood_index(m: Mood) -> int {
    match m {
        Mood::Happy => 0,
        Mood::Uplifting => 1,
        Mood::Romantic => 2,
        Mood::Playful => 3,
        Mood::Peaceful => 4,
        Mood::Calm => 5,
        Mood::Dreamy => 6,
        Mood::Mysterious => 7,
        Mood::Ambient => 8,
        Mood::Sad => 9,
        Mood::Melancholic => 10,
        Mood::Suspense => 11,
        Mood::Thriller => 12,
        Mood::Fear => 13,
        Mood::Dark => 14,
        Mood::Intense => 15,
        Mood::Epic => 16,
        Mood::Corporate => 17,
        Mood::Inspirational => 18,
    }
}

proof fn lemma_mood_index(m: Mood)
    ensures
        0 <= spec_mood_index(m) < spec_all_moods().len(),
        forall|i: int| 0 <= i < spec_all_moods().len() && spec_all_moods()[i] == m ==> i == spec_mood_index(m),
{
}

/// A number read off a mood name's length and first letter; it tells the
/// catalogue's names apart.
spec fn mood_name_key(w: Seq<char>) -> int {
    if w.len() == 5 {
        0
    } else if w.len() == 9 {
        if w[0] == 'u' { 1 } else { 17 }
    } else if w.len() == 8 {
        if w[0] == 'r' { 2 } else if w[0] == 'p' { 4 } else if w[0] == 's' { 11 } else { 12 }
    } else if w.len() == 7 {
        if w[0] == 'p' { 3 } else if w[0] == 'a' { 8 } else { 15 }
    } else if w.len() == 4 {
        if w[0] == 'c' { 5 } else if w[0] == 'f' { 13 } else if w[0] == 'd' { 14 } else { 16 }
    } else if w.len() == 6 {
        6
    } else if w.len() == 10 {
        7
    } else if w.len() == 3 {
        9
    } else if w.len() == 11 {
        10
    } else {
        18
    }
}

/// Each mood's name is lowercase (so it folds to itself) and its key is the
/// mood's place in the catalogue.
proof fn lemma_mood_name_facts(m: Mood)
    ensures
        mood_name_key(spec_mood_name(m)) == spec_mood_index(m),
        equals_folded(spec_mood_name(m), spec_mood_name(m)),
{
    match m {
        Mood::Happy => {
            reveal_strlit("happy");
            assert(spec_mood_name(m) =~= seq!['h', 'a', 'p', 'p', 'y']);
        },
        Mood::Uplifting => {
            reveal_strlit("uplifting");
            assert(spec_mood_name(m) =~= seq!['u', 'p', 'l', 'i', 'f', 't', 'i', 'n', 'g']);
        },
        Mood::Romantic => {
            reveal_strlit("romantic");
            assert(spec_mood_name(m) =~= seq!['r', 'o', 'm', 'a', 'n', 't', 'i', 'c']);
        },
        Mood::Playful => {
            reveal_strlit("playful");
            assert(spec_mood_name(m) =~= seq!['p', 'l', 'a', 'y', 'f', 'u', 'l']);
        },
        Mood::Peaceful => {
            reveal_strlit("peaceful");
            assert(spec_mood_name(m) =~= seq!['p', 'e', 'a', 'c', 'e', 'f', 'u', 'l']);
        },
        Mood::Calm => {
            reveal_strlit("calm");
            assert(spec_mood_name(m) =~= seq!['c', 'a', 'l', 'm']);
        },
        Mood::Dreamy => {
            reveal_strlit("dreamy");
            assert(spec_mood_name(m) =~= seq!['d', 'r', 'e', 'a', 'm', 'y']);
        },
        Mood::Mysterious => {
            reveal_strlit("mysterious");
            assert(spec_mood_name(m) =~= seq!['m', 'y', 's', 't', 'e', 'r', 'i', 'o', 'u', 's']);
        },
        Mood::Ambient => {
            reveal_strlit("ambient");
            assert(spec_mood_name(m) =~= seq!['a', 'm', 'b', 'i', 'e', 'n', 't']);
        },
        Mood::Sad => {
            reveal_strlit("sad");
            assert(spec_mood_name(m) =~= seq!['s', 'a', 'd']);
        },
        Mood::Melancholic => {
            reveal_strlit("melancholic");
            assert(spec_mood_name(m) =~= seq!['m', 'e', 'l', 'a', 'n', 'c', 'h', 'o', 'l', 'i', 'c']);
        },
        Mood::Suspense => {
            reveal_strlit("suspense");
            assert(spec_mood_name(m) =~= seq!['s', 'u', 's', 'p', 'e', 'n', 's', 'e']);
        },
        Mood::Thriller => {
            reveal_strlit("thriller");
            assert(spec_mood_name(m) =~= seq!['t', 'h', 'r', 'i', 'l', 'l', 'e', 'r']);
        },
        Mood::Fear => {
            reveal_strlit("fear");
            assert(spec_mood_name(m) =~= seq!['f', 'e', 'a', 'r']);
        },
        Mood::Dark => {
            reveal_strlit("dark");
            assert(spec_mood_name(m) =~= seq!['d', 'a', 'r', 'k']);
        },
        Mood::Intense => {
            reveal_strlit("intense");
            assert(spec_mood_name(m) =~= seq!['i', 'n', 't', 'e', 'n', 's', 'e']);
        },
        Mood::Epic => {
            reveal_strlit("epic");
            assert(spec_mood_name(m) =~= seq!['e', 'p', 'i', 'c']);
        },
        Mood::Corporate => {
            reveal_strlit("corporate");
            assert(spec_mood_name(m) =~= seq!['c', 'o', 'r', 'p', 'o', 'r', 'a', 't', 'e']);
        },
        Mood::Inspirational => {
            reveal_strlit("inspirational");
            assert(spec_mood_name(m) =~= seq!['i', 'n', 's', 'p', 'i', 'r', 'a', 't', 'i', 'o', 'n', 'a', 'l']);
        },
    }
}

/// A mood's name, lowercased or not, names that mood and no other: it folds
/// to itself, and no text folds to the names of two different moods.
pub proof fn lemma_mood_names_unique(m: Mood, other: Mood, s: Seq<char>)
    ensures
        equals_folded(spec_mood_name(m), spec_mood_name(m)),
        equals_folded(s, spec_mood_name(m)) && equals_folded(s, spec_mood_name(other)) ==> m
            == other,
{
    lemma_mood_name_facts(m);
    lemma_mood_name_facts(other);
    if equals_folded(s, spec_mood_name(m)) && equals_folded(s, spec_mood_name(other)) {
        lemma_folded_unique(s, spec_mood_name(m), spec_mood_name(other));
    }
}

/// Every mood's profile has instruments and preferred keys, a tempo range
/// from lower to higher, and an energy range from lower to higher within
/// 0 to 100 hundredths; every intensity's energy range does too.
pub proof fn lemma_profiles_valid(m: Mood, i: Intensity)
    ensures
        spec_profile(m).instruments.len() > 0,
        spec_profile(m).preferred_keys.len() > 0,
        spec_profile(m).tempo_range.0 < spec_profile(m).tempo_range.1,
        spec_profile(m).base_energy.0 < spec_profile(m).base_energy.1 <= 100,
        spec_profile(m).dynamics_variation <= 100,
        spec_profile(m).mood == m,
        spec_energy_range(i).0 < spec_energy_range(i).1 <= 100,
{
}

/// Look up a mood by name, ignoring case.
pub fn parse_mood(s: &str) -> (r: Option<Mood>)
    ensures
        r matches Some(m) ==> equals_folded(s@, spec_mood_name(m)),
        r is None ==> forall|m: Mood| !equals_folded(s@, #[trigger] spec_mood_name(m)),
        forall|m: Mood| equals_folded(s@, #[trigger] spec_mood_name(m)) ==> r == Some(m),
{
    let chars = chars_of(s);
    let all = Mood::all();
    let mut i: usize = 0;
    while i < all.len()
        invariant
            all@ == spec_all_moods(),
            chars@ == s@,
            i <= all@.len(),
            forall|k: int| 0 <= k < i ==> !equals_folded(s@, #[trigger] spec_mood_name(all@[k])),
        decreases all.len() - i,
    {
        let name = chars_of(all[i].name());
        if same_folded(&chars, &name) {
            assert forall|m: Mood| equals_folded(s@, #[trigger] spec_mood_name(m)) implies m
                == all@[i as int] by {
                lemma_mood_names_unique(all@[i as int], m, s@);
            }
            return Some(all[i]);
        }
        i = i + 1;
    }
    assert forall|m: Mood| !equals_folded(s@, #[trigger] spec_mood_name(m)) by {
        lemma_all_moods_complete(m);
        let k = choose|k: int| 0 <= k < all@.len() && all@[k] == m;
        assert(!equals_folded(s@, spec_mood_name(all@[k])));
    }
    None
}

/// An intensity's name, lowercased or not, names that intensity and no
/// other: it folds to itself, and no text folds to two of the names.
pub proof fn lemma_intensity_names_unique(i: Intensity, other: Intensity, s: Seq<char>)
    ensures
        equals_folded(spec_intensity_name(i), spec_intensity_name(i)),
        equals_folded(s, spec_intensity_name(i)) && equals_folded(s, spec_intensity_name(other))
            ==> i == other,
{
    reveal_strlit("light");
    reveal_strlit("medium");
    reveal_strlit("intense");
    assert("light"@ =~= seq!['l', 'i', 'g', 'h', 't']);
    assert("medium"@ =~= seq!['m', 'e', 'd', 'i', 'u', 'm']);
    assert("intense"@ =~= seq!['i', 'n', 't', 'e', 'n', 's', 'e']);
    if equals_folded(s, spec_intensity_name(i)) && equals_folded(s, spec_intensity_name(other)) {
        lemma_folded_unique(s, spec_intensity_name(i), spec_intensity_name(other));
    }
}

/// Look up an intensity by name, ignoring case.
pub fn parse_intensity(s: &str) -> (r: Option<Intensity>)
    ensures
        r matches Some(i) ==> equals_folded(s@, spec_intensity_name(i)),
        r is None ==> forall|i: Intensity| !equals_folded(s@, #[trigger] spec_intensity_name(i)),
        forall|i: Intensity| equals_folded(s@, #[trigger] spec_intensity_name(i)) ==> r == Some(i),
{
    proof {
        assert forall|i: Intensity, j: Intensity| equals_folded(s@, #[trigger] spec_intensity_name(i))
            && equals_folded(s@, #[trigger] spec_intensity_name(j)) implies i == j by {
            lemma_intensity_names_unique(i, j, s@);
        }
    }
    let chars = chars_of(s);
    if same_folded(&chars, &chars_of(Intensity::Light.name())) {
        Some(Intensity::Light)
    } else if same_folded(&chars, &chars_of(Intensity::Medium.name())) {
        Some(Intensity::Medium)
    } else if same_folded(&chars, &chars_of(Intensity::Intense.name())) {
        Some(Intensity::Intense)
    } else {
        assert forall|i: Intensity| !equals_folded(s@, #[trigger] spec_intensity_name(i)) by {
            match i {
                Intensity::Light => {},
                Intensity::Medium => {},
                Intensity::Intense => {},
            }
        }
        None
    }
}

/// The content-creator presets: a mood, a duration in seconds and an
/// intensity for each preset name.
pub open spec fn spec_preset(name: Seq<char>) -> Option<(Mood, u32, Intensity)> {
    if name == "youtube-intro"@ {
        Some((Mood::Uplifting, 10, Intensity::Intense))
    } else if name == "youtube-outro"@ {
        Some((Mood::Happy, 8, Intensity::Medium))
    } else if name == "podcast-intro"@ {
        Some((Mood::Corporate, 15, Intensity::Medium))
    } else if name == "podcast-bg"@ {
        Some((Mood::Calm, 120, Intensity::Light))
    } else if name == "podcast-background"@ {
        Some((Mood::Calm, 120, Intensity::Light))
    } else if name == "social-reel"@ {
        Some((Mood::Playful, 15, Intensity::Intense))
    } else if name == "social-media"@ {
        Some((Mood::Playful, 15, Intensity::Intense))
    } else if name == "meditation"@ {
        Some((Mood::Peaceful, 180, Intensity::Light))
    } else if name == "workout"@ {
        Some((Mood::Intense, 240, Intensity::Intense))
    } else if name == "study"@ {
        Some((Mood::Calm, 300, Intensity::Light))
    } else if name == "vlog-bg"@ {
        Some((Mood::Uplifting, 120, Intensity::Light))
    } else if name == "vlog-background"@ {
        Some((Mood::Uplifting, 120, Intensity::Light))
    } else if name == "trailer"@ {
        Some((Mood::Epic, 30, Intensity::Intense))
    } else if name == "horror"@ {
        Some((Mood::Fear, 60, Intensity::Intense))
    } else if name == "romantic-scene"@ {
        Some((Mood::Romantic, 90, Intensity::Medium))
    } else if name == "documentary"@ {
        Some((Mood::Mysterious, 180, Intensity::Medium))
    } else if name == "corporate-presentation"@ {
        Some((Mood::Corporate, 120, Intensity::Medium))
    } else {
        None
    }
}

/// Look up a content-creator preset by its exact name.
pub fn preset(name: &str) -> (r: Option<(Mood, u32, Intensity)>)
    ensures
        r == spec_preset(name@),
{
    let n = chars_of(name);
    if same_chars(&n, &chars_of("youtube-intro")) {
        Some((Mood::Uplifting, 10, Intensity::Intense))
    } else if same_chars(&n, &chars_of("youtube-outro")) {
        Some((Mood::Happy, 8, Intensity::Medium))
    } else if same_chars(&n, &chars_of("podcast-intro")) {
        Some((Mood::Corporate, 15, Intensity::Medium))
    } else if same_chars(&n, &chars_of("podcast-bg")) {
        Some((Mood::Calm, 120, Intensity::Light))
    } else if same_chars(&n, &chars_of("podcast-background")) {
        Some((Mood::Calm, 120, Intensity::Light))
    } else if same_chars(&n, &chars_of("social-reel")) {
        Some((Mood::Playful, 15, Intensity::Intense))
    } else if same_chars(&n, &chars_of("social-media")) {
        Some((Mood::Playful, 15, Intensity::Intense))
    } else if same_chars(&n, &chars_of("meditation")) {
        Some((Mood::Peaceful, 180, Intensity::Light))
    } else if same_chars(&n, &chars_of("workout")) {
        Some((Mood::Intense, 240, Intensity::Intense))
    } else if same_chars(&n, &chars_of("study")) {
        Some((Mood::Calm, 300, Intensity::Light))
    } else if same_chars(&n, &chars_of("vlog-bg")) {
        Some((Mood::Uplifting, 120, Intensity::Light))
    } else if same_chars(&n, &chars_of("vlog-background")) {
        Some((Mood::Uplifting, 120, Intensity::Light))
    } else if same_chars(&n, &chars_of("trailer")) {
        Some((Mood::Epic, 30, Intensity::Intense))
    } else if same_chars(&n, &chars_of("horror")) {
        Some((Mood::Fear, 60, Intensity::Intense))
    } else if same_chars(&n, &chars_of("romantic-scene")) {
        Some((Mood::Romantic, 90, Intensity::Medium))
    } else if same_chars(&n, &chars_of("documentary")) {
        Some((Mood::Mysterious, 180, Intensity::Medium))
    } else if same_chars(&n, &chars_of("corporate-presentation")) {
        Some((Mood::Corporate, 120, Intensity::Medium))
    } else {
        None
    }
}

} // verus!
