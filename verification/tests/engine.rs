use music_presence::ArtCache;
use music_presence::ReconcileOutcome;
use music_presence::ReconcilerState;
use music_presence::TickInput;
use music_presence::is_music;
use music_presence::publish_record;
use music_presence::reconcile;

fn tick(title: Option<&str>, artist: Option<&str>, album: Option<&str>, position: Option<u64>, length: Option<u64>) -> TickInput {
    TickInput {
        title: title.map(|s| s.to_string()),
        artist: artist.map(|s| s.to_string()),
        album: album.map(|s| s.to_string()),
        position,
        length,
    }
}

fn track_a(position: Option<u64>) -> TickInput {
    tick(Some("La Femme d'Argent"), Some("Air"), Some("Moon Safari"), position, Some(180))
}

fn track_b(position: Option<u64>) -> TickInput {
    tick(Some("Kelly Watch the Stars"), Some("Air"), Some("Moon Safari"), position, Some(180))
}

#[test]
fn anchor_stable_during_playback() {
    let mut state = ReconcilerState::new();
    let cache = ArtCache::new();

    let o = reconcile(&mut state, &cache, &track_a(Some(10)), 1000);
    assert_eq!(o, ReconcileOutcome::Active { need_art: true });
    assert_eq!(state.anchor, Some(1000));

    for k in 1..5u64 {
        let o = reconcile(&mut state, &cache, &track_a(Some(10 + k)), 1000 + (k as i64));
        assert_eq!(o, ReconcileOutcome::Active { need_art: false });
        assert_eq!(state.anchor, Some(1000));
        assert_eq!(state.last_position, Some(10 + k));
    }
}

#[test]
fn drift_of_exactly_three_keeps_anchor() {
    let mut state = ReconcilerState::new();
    let cache = ArtCache::new();
    reconcile(&mut state, &cache, &track_a(Some(10)), 1000);
    reconcile(&mut state, &cache, &track_a(Some(13)), 1001);
    assert_eq!(state.anchor, Some(1000));
    reconcile(&mut state, &cache, &track_a(Some(10)), 1002);
    assert_eq!(state.anchor, Some(1000));
}

#[test]
fn seek_reanchors() {
    let mut state = ReconcilerState::new();
    let cache = ArtCache::new();
    reconcile(&mut state, &cache, &track_a(Some(10)), 1000);
    let o = reconcile(&mut state, &cache, &track_a(Some(50)), 1001);
    assert_eq!(o, ReconcileOutcome::Active { need_art: false });
    assert_eq!(state.anchor, Some(1001 - 50));
    // The next small drift does not reanchor again.
    reconcile(&mut state, &cache, &track_a(Some(51)), 1002);
    assert_eq!(state.anchor, Some(1001 - 50));
}

#[test]
fn backward_seek_reanchors() {
    let mut state = ReconcilerState::new();
    let cache = ArtCache::new();
    reconcile(&mut state, &cache, &track_a(Some(60)), 1000);
    reconcile(&mut state, &cache, &track_a(Some(5)), 1001);
    assert_eq!(state.anchor, Some(1001 - 5));
}

#[test]
fn change_resets_anchor() {
    let mut state = ReconcilerState::new();
    let cache = ArtCache::new();
    reconcile(&mut state, &cache, &track_a(Some(170)), 1000);
    // Identity change: even a huge position jump anchors to now, not now - position.
    let o = reconcile(&mut state, &cache, &track_b(Some(0)), 1180);
    assert!(matches!(o, ReconcileOutcome::Active { .. }));
    assert_eq!(state.anchor, Some(1180));
    assert_eq!(state.last_position, Some(0));
}

#[test]
fn music_worthiness_examples() {
    let some = |s: &str| Some(s.to_string());
    assert!(is_music(&some("Air"), &some("Moon Safari"), &Some(180)));
    assert!(!is_music(&some("Air"), &some(""), &Some(180)));
    assert!(!is_music(&some("Air"), &some("Moon Safari"), &Some(45)));
    // Length must be strictly over sixty seconds, and every field present.
    assert!(!is_music(&some("Air"), &some("Moon Safari"), &Some(60)));
    assert!(is_music(&some("Air"), &some("Moon Safari"), &Some(61)));
    assert!(!is_music(&some(""), &some("Moon Safari"), &Some(180)));
    assert!(!is_music(&None, &some("Moon Safari"), &Some(180)));
    assert!(!is_music(&some("Air"), &None, &Some(180)));
    assert!(!is_music(&some("Air"), &some("Moon Safari"), &None));
}

#[test]
fn artwork_requested_at_most_once_per_pair() {
    let mut state = ReconcilerState::new();
    let mut cache = ArtCache::new();

    let o = reconcile(&mut state, &cache, &track_a(Some(0)), 1000);
    assert_eq!(o, ReconcileOutcome::Active { need_art: true });
    cache.store("Air".to_string(), "Moon Safari".to_string(), Some("https://img/600x600bb.jpg".to_string()));

    // A change to a different pair asks again for that pair only.
    let other = tick(Some("Otherside"), Some("Red Hot Chili Peppers"), Some("Californication"), Some(0), Some(240));
    let o = reconcile(&mut state, &cache, &other, 1200);
    assert_eq!(o, ReconcileOutcome::Active { need_art: true });
    cache.store("Red Hot Chili Peppers".to_string(), "Californication".to_string(), None);

    // A second change back to the first pair must not ask again.
    let o = reconcile(&mut state, &cache, &track_a(Some(0)), 1500);
    assert_eq!(o, ReconcileOutcome::Active { need_art: false });
}

#[test]
fn cache_entries_never_change_once_written() {
    let mut cache = ArtCache::new();
    cache.store("Air".to_string(), "Moon Safari".to_string(), Some("first".to_string()));
    cache.store("Air".to_string(), "Moon Safari".to_string(), Some("second".to_string()));
    assert_eq!(cache.lookup(&"Air".to_string(), &"Moon Safari".to_string()), Some("first".to_string()));
    // A failed resolution is recorded as the sentinel and also sticks.
    cache.store("Boards of Canada".to_string(), "Geogaddi".to_string(), None);
    cache.store("Boards of Canada".to_string(), "Geogaddi".to_string(), Some("late".to_string()));
    assert_eq!(cache.lookup(&"Boards of Canada".to_string(), &"Geogaddi".to_string()), Some("logo".to_string()));
    assert_eq!(cache.lookup(&"Air".to_string(), &"Premiers Symptomes".to_string()), None);
}

#[test]
fn absence_clears_state() {
    let mut state = ReconcilerState::new();
    let cache = ArtCache::new();
    reconcile(&mut state, &cache, &track_a(Some(10)), 1000);
    assert!(state.last_identity.is_some());

    let o = reconcile(&mut state, &cache, &tick(None, Some("Air"), None, Some(11), Some(180)), 1001);
    assert_eq!(o, ReconcileOutcome::Clear);
    assert!(state.last_identity.is_none());
    assert_eq!(state.anchor, None);
    assert_eq!(state.last_position, None);

    // Clearing is reported again on the next idle tick.
    let o = reconcile(&mut state, &cache, &tick(None, None, None, None, None), 1002);
    assert_eq!(o, ReconcileOutcome::Clear);
}

#[test]
fn position_glitch_changes_nothing() {
    let mut state = ReconcilerState::new();
    let cache = ArtCache::new();
    reconcile(&mut state, &cache, &track_a(Some(10)), 1000);

    let o = reconcile(&mut state, &cache, &track_a(None), 1001);
    assert_eq!(o, ReconcileOutcome::Skip);
    assert_eq!(state.anchor, Some(1000));
    assert_eq!(state.last_position, Some(10));
    assert!(state.last_identity.is_some());
}

#[test]
fn round_trip_scripted_probe() {
    let mut state = ReconcilerState::new();
    let mut cache = ArtCache::new();
    let mut published: Vec<(String, Option<i64>)> = Vec::new();

    let script: Vec<(TickInput, i64)> = vec![
        (track_a(Some(0)), 1000),
        (track_a(Some(1)), 1001),
        (track_a(Some(2)), 1002),
        (
            tick(Some("Teardrop"), Some("Massive Attack"), Some("Mezzanine"), Some(0), Some(330)),
            1003,
        ),
    ];

    for (input, now) in &script {
        match reconcile(&mut state, &cache, input, *now) {
            ReconcileOutcome::Clear => panic!("no clear expected"),
            ReconcileOutcome::Skip => panic!("no skip expected"),
            ReconcileOutcome::Active { need_art } => {
                if need_art {
                    let artist = input.artist.clone().unwrap();
                    let album = input.album.clone().unwrap();
                    cache.store(artist, album, None);
                }
                let rec = publish_record(input, &cache, &state).expect("both tracks are music");
                published.push((rec.details.clone(), rec.start));
            }
        }
    }

    assert_eq!(
        published,
        vec![
            ("La Femme d'Argent".to_string(), Some(1000)),
            ("La Femme d'Argent".to_string(), Some(1000)),
            ("La Femme d'Argent".to_string(), Some(1000)),
            ("Teardrop".to_string(), Some(1003)),
        ]
    );
}

#[test]
fn record_carries_cached_artwork_and_fixed_link() {
    let mut state = ReconcilerState::new();
    let mut cache = ArtCache::new();
    let input = track_a(Some(5));
    reconcile(&mut state, &cache, &input, 900);
    cache.store("Air".to_string(), "Moon Safari".to_string(), Some("https://img/600x600bb.jpg".to_string()));

    let rec = publish_record(&input, &cache, &state).unwrap();
    assert_eq!(rec.details, "La Femme d'Argent");
    assert_eq!(rec.state_line, "Air");
    assert_eq!(rec.large_image, "https://img/600x600bb.jpg");
    assert_eq!(rec.large_text, "Moon Safari");
    assert_eq!(rec.button_label, "Listen on Apple Music");
    assert_eq!(rec.button_url, "https://notimplemented.yet");
    assert_eq!(rec.start, Some(900));
}

#[test]
fn record_falls_back_to_sentinel_artwork() {
    let mut state = ReconcilerState::new();
    let cache = ArtCache::new();
    let input = track_a(Some(5));
    reconcile(&mut state, &cache, &input, 900);
    let rec = publish_record(&input, &cache, &state).unwrap();
    assert_eq!(rec.large_image, "logo");
}

#[test]
fn not_music_publishes_nothing_but_keeps_state() {
    let mut state = ReconcilerState::new();
    let cache = ArtCache::new();
    // Spoken word: no album. Identity and anchor bookkeeping still run.
    let input = tick(Some("Episode 12"), Some("Some Host"), None, Some(10), Some(3600));
    let o = reconcile(&mut state, &cache, &input, 2000);
    assert!(matches!(o, ReconcileOutcome::Active { .. }));
    assert_eq!(state.anchor, Some(2000));
    assert!(publish_record(&input, &cache, &state).is_none());
}

#[test]
fn missing_album_defaults_into_identity() {
    let mut state = ReconcilerState::new();
    let cache = ArtCache::new();
    let no_album = tick(Some("Demo"), Some("Band"), None, Some(0), Some(120));
    reconcile(&mut state, &cache, &no_album, 100);
    let id = state.last_identity.as_ref().unwrap();
    assert_eq!(id.album, "Unknown album");
    // The same readings on the next tick are the same identity: no re-anchor.
    reconcile(&mut state, &cache, &no_album, 101);
    assert_eq!(state.anchor, Some(100));
}
