//! The presence reconciliation engine: per-tick detection of track
//! identity changes, the elapsed-time anchor that survives re-polls and
//! is recomputed on seeks, the music-worthiness gate, and construction
//! of the presence record to publish.
use vstd::prelude::*;

use crate::artwork::ArtCache;

verus! {

/// The derived key used to detect a track change between ticks: the
/// artist/title/album triple, compared by value.
pub struct TrackIdentity {
    pub artist: String,
    pub title: String,
    pub album: String,
}

/// Spec-level track identity: the three field views.
pub struct SpecId {
    pub artist: Seq<char>,
    pub title: Seq<char>,
    pub album: Seq<char>,
}

impl View for TrackIdentity {
    type V = SpecId;

    open spec fn view(&self) -> SpecId {
        SpecId { artist: self.artist@, title: self.title@, album: self.album@ }
    }
}

/// The reconciler's state across ticks. `anchor` is the epoch second at
/// which position zero of the current track would have occurred had
/// playback been continuous.
pub struct ReconcilerState {
    pub last_identity: Option<TrackIdentity>,
    pub anchor: Option<i64>,
    pub last_position: Option<u64>,
}

/// Spec-level reconciler state.
pub struct SpecState {
    pub last_identity: Option<SpecId>,
    pub anchor: Option<int>,
    pub last_position: Option<int>,
}

impl View for ReconcilerState {
    type V = SpecState;

    open spec fn view(&self) -> SpecState {
        SpecState {
            last_identity: match self.last_identity {
                Option::Some(id) => Option::Some(id@),
                Option::None => Option::None,
            },
            anchor: match self.anchor {
                Option::Some(a) => Option::Some(a as int),
                Option::None => Option::None,
            },
            last_position: match self.last_position {
                Option::Some(p) => Option::Some(p as int),
                Option::None => Option::None,
            },
        }
    }
}

/// One tick's probe readings, each already normalised so that a failed
/// or empty reading is absent.
pub struct TickInput {
    pub title: Option<String>,
    pub artist: Option<String>,
    pub album: Option<String>,
    pub position: Option<u64>,
    pub length: Option<u64>,
}

/// Spec-level tick input.
pub struct SpecInput {
    pub title: Option<Seq<char>>,
    pub artist: Option<Seq<char>>,
    pub album: Option<Seq<char>>,
    pub position: Option<int>,
    pub length: Option<int>,
}

impl View for TickInput {
    type V = SpecInput;

    open spec fn view(&self) -> SpecInput {
        SpecInput {
            title: match self.title {
                Option::Some(ref t) => Option::Some(t@),
                Option::None => Option::None,
            },
            artist: match self.artist {
                Option::Some(ref a) => Option::Some(a@),
                Option::None => Option::None,
            },
            album: match self.album {
                Option::Some(ref a) => Option::Some(a@),
                Option::None => Option::None,
            },
            position: match self.position {
                Option::Some(p) => Option::Some(p as int),
                Option::None => Option::None,
            },
            length: match self.length {
                Option::Some(l) => Option::Some(l as int),
                Option::None => Option::None,
            },
        }
    }
}

/// The album name that participates in identity and in the artwork
/// cache key when the probe reports none.
pub open spec fn spec_album_or_default(album: Option<Seq<char>>) -> Seq<char> {
    match album {
        Option::Some(a) => a,
        Option::None => "Unknown album"@,
    }
}

/// The identity a tick derives, meaningful when title and artist are
/// present.
pub open spec fn spec_identity_of(inp: SpecInput) -> SpecId {
    SpecId {
        artist: inp.artist.unwrap(),
        title: inp.title.unwrap(),
        album: spec_album_or_default(inp.album),
    }
}

/// The artwork cache key a tick uses: artist and defaulted album.
pub open spec fn spec_art_key(inp: SpecInput) -> (Seq<char>, Seq<char>) {
    (inp.artist.unwrap(), spec_album_or_default(inp.album))
}

/// Whether a tick observes an active track at all.
pub open spec fn spec_track_present(inp: SpecInput) -> bool {
    inp.title is Some && inp.artist is Some
}

/// The state left behind when no track is active.
pub open spec fn spec_idle_state() -> SpecState {
    SpecState { last_identity: Option::None, anchor: Option::None, last_position: Option::None }
}

/// The reconciler's state after one tick.
///
/// Absence of title or artist resets to idle; a present track with a
/// failed position probe changes nothing; otherwise an identity change
/// re-anchors to `now`, a position jump of more than three seconds under
/// the same identity re-anchors to `now - position`, and a small drift
/// keeps the anchor.
pub open spec fn spec_next(s: SpecState, inp: SpecInput, now: int) -> SpecState {
    if !spec_track_present(inp) {
        spec_idle_state()
    } else if inp.position is None {
        s
    } else {
        let p = inp.position.unwrap();
        let id = spec_identity_of(inp);
        if s.last_identity != Option::Some(id) {
            SpecState {
                last_identity: Option::Some(id),
                anchor: Option::Some(now),
                last_position: Option::Some(p),
            }
        } else {
            let anchor = if s.last_position matches Option::Some(lp) && (p - lp > 3 || lp - p
                > 3) {
                Option::Some(now - p)
            } else {
                s.anchor
            };
            SpecState {
                last_identity: s.last_identity,
                anchor,
                last_position: Option::Some(p),
            }
        }
    }
}

/// What the tick asks of the presence channel and the artwork resolver.
#[derive(PartialEq, Eq, Structural, Clone, Copy, Debug)]
pub enum ReconcileOutcome {
    /// No active track: presence must be cleared.
    Clear,
    /// Transient position-probe failure: do nothing this tick.
    Skip,
    /// An active track; artwork resolution is requested only on a track
    /// change whose (artist, album) pair has no cache entry yet.
    Active { need_art: bool },
}

/// The outcome one tick reports, given whether the tick's artwork cache
/// key already has an entry.
pub open spec fn spec_outcome(s: SpecState, inp: SpecInput, cached: bool) -> ReconcileOutcome {
    if !spec_track_present(inp) {
        ReconcileOutcome::Clear
    } else if inp.position is None {
        ReconcileOutcome::Skip
    } else {
        let id = spec_identity_of(inp);
        ReconcileOutcome::Active { need_art: s.last_identity != Option::Some(id) && !cached }
    }
}

impl ReconcilerState {
    /// The idle state the process starts in.
    pub fn new() -> (s: ReconcilerState)
        ensures
            s@ == spec_idle_state(),
    {
        ReconcilerState { last_identity: None, anchor: None, last_position: None }
    }
}

/// Run one tick of the reconciliation engine over the probe readings.
///
/// The state moves exactly as `spec_next` says, and the returned outcome
/// is exactly `spec_outcome`, with artwork requested only when the
/// tick's (artist, defaulted album) pair has no cache entry.
pub fn reconcile(
    state: &mut ReconcilerState,
    cache: &ArtCache,
    input: &TickInput,
    now: i64,
) -> (o: ReconcileOutcome)
    requires
        now >= 0,
        input.position matches Some(p) ==> p <= i64::MAX as u64,
    ensures
        final(state)@ == spec_next(old(state)@, input@, now as int),
        o == spec_outcome(
            old(state)@,
            input@,
            cache.spec_contains_key(spec_art_key(input@).0, spec_art_key(input@).1),
        ),
{
    match (&input.title, &input.artist) {
        (Some(title), Some(artist)) => {
            match input.position {
                Some(p) => {
                    let album: String = match &input.album {
                        Some(a) => a.clone(),
                        None => "Unknown album".to_owned(),
                    };
                    let changed: bool = match &state.last_identity {
                        None => true,
                        Some(li) => !(li.artist == *artist && li.title == *title && li.album
                            == album),
                    };
                    proof {
                        assert(changed == (old(state)@.last_identity != Option::Some(
                            spec_identity_of(input@),
                        )));
                    }
                    if changed {
                        let cached = cache.contains(artist, &album);
                        state.anchor = Some(now);
                        state.last_position = Some(p);
                        state.last_identity = Some(
                            TrackIdentity {
                                artist: artist.clone(),
                                title: title.clone(),
                                album,
                            },
                        );
                        ReconcileOutcome::Active { need_art: !cached }
                    } else {
                        if let Some(lp) = state.last_position {
                            let jump: u64 = if p >= lp {
                                p - lp
                            } else {
                                lp - p
                            };
                            if jump > 3 {
                                state.anchor = Some(now - (p as i64));
                            }
                        }
                        state.last_position = Some(p);
                        ReconcileOutcome::Active { need_art: false }
                    }
                },
                None => ReconcileOutcome::Skip,
            }
        },
        _ => {
            state.last_identity = None;
            state.anchor = None;
            state.last_position = None;
            ReconcileOutcome::Clear
        },
    }
}

/// Whether the current readings qualify as music worth publishing:
/// artist present and non-empty, album present and non-empty, and
/// length present and over sixty seconds.
pub open spec fn spec_is_music(
    artist: Option<Seq<char>>,
    album: Option<Seq<char>>,
    length: Option<int>,
) -> bool {
    &&& artist matches Option::Some(a) && a.len() > 0
    &&& album matches Option::Some(b) && b.len() > 0
    &&& length matches Option::Some(l) && l > 60
}

/// The music-worthiness gate, evaluated fresh each tick from the
/// current probe readings.
pub fn is_music(artist: &Option<String>, album: &Option<String>, length: &Option<u64>) -> (r:
    bool)
    ensures
        r == spec_is_music(
            match artist {
                Option::Some(a) => Option::Some(a@),
                Option::None => Option::None,
            },
            match album {
                Option::Some(b) => Option::Some(b@),
                Option::None => Option::None,
            },
            match length {
                Option::Some(l) => Option::Some(*l as int),
                Option::None => Option::None,
            },
        ),
{
    match (artist, album, length) {
        (Some(a), Some(b), Some(l)) => !a.as_str().is_empty() && !b.as_str().is_empty() && *l
            > 60,
        _ => false,
    }
}

/// The outward-facing presence record, built fresh on each publishing
/// tick.
pub struct PresenceRecord {
    /// Primary line: the track title.
    pub details: String,
    /// Secondary line: the artist.
    pub state_line: String,
    /// Artwork reference: the cached image URL, or the sentinel.
    pub large_image: String,
    /// Artwork caption: the (defaulted) album name.
    pub large_text: String,
    /// Label of the one external link offered.
    pub button_label: String,
    /// Target of the one external link offered.
    pub button_url: String,
    /// The elapsed-time anchor, when one is known.
    pub start: Option<i64>,
}

/// Build the presence record for this tick, or nothing when the current
/// readings do not qualify as music (state is retained and no clear is
/// issued: "not music" is distinct from "nothing playing").
pub fn publish_record(input: &TickInput, cache: &ArtCache, state: &ReconcilerState) -> (r:
    Option<PresenceRecord>)
    requires
        input.title is Some,
        input.artist is Some,
    ensures
        r is Some <==> spec_is_music(input@.artist, input@.album, input@.length),
        r matches Some(rec) ==> rec.details@ == input@.title.unwrap(),
        r matches Some(rec) ==> rec.state_line@ == input@.artist.unwrap(),
        r matches Some(rec) ==> rec.large_text@ == spec_album_or_default(input@.album),
        r matches Some(rec) ==> rec.large_image@ == (
        match cache.spec_lookup(spec_art_key(input@).0, spec_art_key(input@).1) {
            Option::Some(a) => a,
            Option::None => "logo"@,
        }),
        r matches Some(rec) ==> rec.button_label@ == "Listen on Apple Music"@,
        r matches Some(rec) ==> rec.button_url@ == "https://notimplemented.yet"@,
        r matches Some(rec) ==> rec.start == state.anchor,
{
    let music = is_music(&input.artist, &input.album, &input.length);
    if !music {
        return None;
    }
    match (&input.title, &input.artist) {
        (Some(title), Some(artist)) => {
            let album: String = match &input.album {
                Some(a) => a.clone(),
                None => "Unknown album".to_owned(),
            };
            let image: String = match cache.lookup(artist, &album) {
                Some(a) => a,
                None => "logo".to_owned(),
            };
            Some(
                PresenceRecord {
                    details: title.clone(),
                    state_line: artist.clone(),
                    large_image: image,
                    large_text: album,
                    button_label: "Listen on Apple Music".to_owned(),
                    button_url: "https://notimplemented.yet".to_owned(),
                    start: state.anchor,
                },
            )
        },
        _ => None,
    }
}

} // verus!
