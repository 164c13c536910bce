use tunesmith::metadata::{
    add_tag, position_of, library_moods, matches_terms, moods_by_name, top_by_key, total_usage,
    unique_id, SearchTerms, TrackInfo,
};
use tunesmith::mood::{Intensity, Mood};

fn strings(v: &[&str]) -> Vec<String> {
    v.iter().map(|s| s.to_string()).collect()
}

fn sample_track() -> TrackInfo {
    TrackInfo {
        mood: Mood::Happy,
        intensity: Intensity::Medium,
        style: "pop".to_string(),
        tags: strings(&["intro", "upbeat"]),
        use_cases: strings(&["YouTube intros", "Vlogs"]),
    }
}

fn no_terms() -> SearchTerms {
    SearchTerms {
        mood: None,
        intensity: None,
        style: None,
        tag: None,
        use_case: None,
    }
}

#[test]
fn empty_search_matches_every_track() {
    assert!(matches_terms(&sample_track(), &no_terms()));
}

#[test]
fn search_by_mood_and_intensity() {
    let t = sample_track();
    let mut q = no_terms();
    q.mood = Some(Mood::Happy);
    q.intensity = Some(Intensity::Medium);
    assert!(matches_terms(&t, &q));
    q.mood = Some(Mood::Sad);
    assert!(!matches_terms(&t, &q));
    q.mood = None;
    q.intensity = Some(Intensity::Light);
    assert!(!matches_terms(&t, &q));
}

#[test]
fn search_by_style_is_substring_and_case_sensitive() {
    let t = sample_track();
    let mut q = no_terms();
    q.style = Some("po".to_string());
    assert!(matches_terms(&t, &q));
    q.style = Some("rock".to_string());
    assert!(!matches_terms(&t, &q));
    q.style = Some("Pop".to_string());
    assert!(!matches_terms(&t, &q));
    q.style = Some(String::new());
    assert!(matches_terms(&t, &q));
}

#[test]
fn search_by_tag_looks_at_every_tag() {
    let t = sample_track();
    let mut q = no_terms();
    q.tag = Some("beat".to_string());
    assert!(matches_terms(&t, &q));
    q.tag = Some("outro".to_string());
    assert!(!matches_terms(&t, &q));
}

#[test]
fn search_by_use_case_ignores_case() {
    let t = sample_track();
    let mut q = no_terms();
    q.use_case = Some("youtube".to_string());
    assert!(matches_terms(&t, &q));
    q.use_case = Some("VLOG".to_string());
    assert!(matches_terms(&t, &q));
    q.use_case = Some("podcast".to_string());
    assert!(!matches_terms(&t, &q));
}

#[test]
fn position_of_gives_first_position() {
    let ids = strings(&["a", "b", "a"]);
    assert_eq!(position_of(&ids, "a"), Some(0));
    assert_eq!(position_of(&ids, "b"), Some(1));
    assert_eq!(position_of(&ids, "c"), None);
    assert_eq!(position_of(&Vec::new(), "a"), None);
}

#[test]
fn add_tag_skips_duplicates() {
    let mut tags = strings(&["calm"]);
    add_tag(&mut tags, "calm".to_string());
    assert_eq!(tags, strings(&["calm"]));
    add_tag(&mut tags, "night".to_string());
    assert_eq!(tags, strings(&["calm", "night"]));
}

#[test]
fn total_usage_sums_counts() {
    assert_eq!(total_usage(&vec![1, 2, 3]), 6);
    assert_eq!(total_usage(&Vec::new()), 0);
    assert_eq!(total_usage(&vec![u32::MAX]), u32::MAX);
}

#[test]
fn library_moods_are_distinct_and_ordered_by_name() {
    let moods = vec![Mood::Sad, Mood::Happy, Mood::Sad, Mood::Ambient];
    assert_eq!(library_moods(&moods), vec![Mood::Ambient, Mood::Happy, Mood::Sad]);
    assert_eq!(library_moods(&Vec::new()), Vec::<Mood>::new());
}

#[test]
fn moods_by_name_follow_their_debug_names() {
    let order = moods_by_name();
    let mut names: Vec<String> = Mood::all().iter().map(|m| format!("{:?}", m)).collect();
    names.sort();
    let listed: Vec<String> = order.iter().map(|m| format!("{:?}", m)).collect();
    assert_eq!(listed, names);
}

#[test]
fn top_by_key_is_a_stable_descending_ranking() {
    let keys = vec![5u128, 9, 5, 1];
    assert_eq!(top_by_key(&keys, 3), vec![1, 0, 2]);
    assert_eq!(top_by_key(&keys, 10), vec![1, 0, 2, 3]);
    assert_eq!(top_by_key(&keys, 0), Vec::<usize>::new());
    assert_eq!(top_by_key(&vec![7u128, 7, 7], 2), vec![0, 1]);
}

#[test]
fn unique_id_numbers_taken_identifiers() {
    assert_eq!(unique_id(&Vec::new(), "x"), "x");
    assert_eq!(unique_id(&strings(&["x"]), "x"), "x_1");
    assert_eq!(unique_id(&strings(&["x", "x_1", "x_2"]), "x"), "x_3");
    assert_eq!(unique_id(&strings(&["x_1"]), "x"), "x");
    assert_eq!(unique_id(&strings(&["x", "x_2"]), "x"), "x_1");
    let many: Vec<String> = std::iter::once("t".to_string())
        .chain((1..=11).map(|k| format!("t_{}", k)))
        .collect();
    assert_eq!(unique_id(&many, "t"), "t_12");
}

#[test]
fn test_metadata_matching() {
    let track = TrackInfo {
        mood: Mood::Happy,
        intensity: Intensity::Medium,
        style: "pop".to_string(),
        tags: Vec::new(),
        use_cases: Mood::Happy.use_cases().iter().map(|s| s.to_string()).collect(),
    };

    let mut query = no_terms();
    query.mood = Some(Mood::Happy);
    assert!(matches_terms(&track, &query));

    query.mood = Some(Mood::Sad);
    assert!(!matches_terms(&track, &query));
}
